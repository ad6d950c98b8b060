//! Per-connection lifecycle state machine.
//!
//! Every accepted connection walks the stages `Accepted -> Registered ->
//! Active -> Closing -> Removed`, never backwards, and `Removed` is
//! terminal. The transport layer owns the blocking reader and the polling
//! writer of a connection and drives this machine; the actions attached to a
//! transition (registering, emitting events, deregistering) are the
//! [`crate::plugin::NetworkManager`] calls named in each event's
//! documentation.

use vstd::prelude::*;

verus! {

/// The lifecycle stage of one connection.
#[derive(Clone, Copy, PartialEq, Eq, Structural, Debug)]
pub enum ConnectionState {
    /// The transport accepted the connection; the handshake is not done.
    Accepted,
    /// The handshake succeeded and the connection's record is in the
    /// registry; its `Connected` event has been emitted.
    Registered,
    /// Reader and writer are running.
    Active,
    /// A close frame, a read failure or a torn-down outbound channel ended
    /// the connection; final writes may still drain during a short grace
    /// period.
    Closing,
    /// The registry entry is gone and `Disconnected` has been emitted.
    /// Terminal.
    Removed,
}

/// What happened to a connection; the input of one transition.
#[derive(Clone, Copy, PartialEq, Eq, Structural, Debug)]
pub enum ConnectionEvent {
    /// The protocol upgrade finished; the handler registers the client
    /// (`client_connected`) before anything else runs.
    HandshakeComplete,
    /// Reader and writer started.
    IoStarted,
    /// The reader saw a close frame and forwarded it (`client_frame`).
    CloseFrameReceived,
    /// A read failed; never fatal to the process, only to this connection.
    ReadFailed,
    /// The outbound channel was torn down elsewhere; the writer infers
    /// shutdown from it.
    OutboundClosed,
    /// The handler removed its own registry entry and `Disconnected` went
    /// out.
    Deregistered,
}

/// The transition function of the per-connection machine. Events that do
/// not apply to the current stage are ignored: the stage is kept. In
/// particular every event leaves `Removed` in `Removed`.
pub open spec fn spec_advance(state: ConnectionState, event: ConnectionEvent) -> ConnectionState {
    match (state, event) {
        (ConnectionState::Accepted, ConnectionEvent::HandshakeComplete) => ConnectionState::Registered,
        (ConnectionState::Registered, ConnectionEvent::IoStarted) => ConnectionState::Active,
        (ConnectionState::Active, ConnectionEvent::CloseFrameReceived) => ConnectionState::Closing,
        (ConnectionState::Active, ConnectionEvent::ReadFailed) => ConnectionState::Closing,
        (ConnectionState::Active, ConnectionEvent::OutboundClosed) => ConnectionState::Closing,
        (ConnectionState::Closing, ConnectionEvent::Deregistered) => ConnectionState::Removed,
        _ => state,
    }
}

/// How far along the lifecycle a stage is.
pub open spec fn stage_rank(state: ConnectionState) -> int {
    match state {
        ConnectionState::Accepted => 0,
        ConnectionState::Registered => 1,
        ConnectionState::Active => 2,
        ConnectionState::Closing => 3,
        ConnectionState::Removed => 4,
    }
}

/// Advances a connection by one event.
pub fn advance(state: ConnectionState, event: ConnectionEvent) -> (next: ConnectionState)
    ensures
        next == spec_advance(state, event),
{
    match (state, event) {
        (ConnectionState::Accepted, ConnectionEvent::HandshakeComplete) => ConnectionState::Registered,
        (ConnectionState::Registered, ConnectionEvent::IoStarted) => ConnectionState::Active,
        (ConnectionState::Active, ConnectionEvent::CloseFrameReceived) => ConnectionState::Closing,
        (ConnectionState::Active, ConnectionEvent::ReadFailed) => ConnectionState::Closing,
        (ConnectionState::Active, ConnectionEvent::OutboundClosed) => ConnectionState::Closing,
        (ConnectionState::Closing, ConnectionEvent::Deregistered) => ConnectionState::Removed,
        (s, _) => s,
    }
}

/// The lifecycle only moves forward: no event returns a connection to an
/// earlier stage, and a removed connection stays removed whatever else
/// arrives.
pub proof fn lemma_lifecycle_monotone(state: ConnectionState, event: ConnectionEvent)
    ensures
        stage_rank(spec_advance(state, event)) >= stage_rank(state),
        state is Removed ==> spec_advance(state, event) == state,
{
}

/// What the connection's writer does after one poll of its outbound queue:
/// `pending` messages were handed out while the connection was, or was not,
/// still registered.
#[derive(Clone, Copy, PartialEq, Eq, Structural, Debug)]
pub enum WriterAction {
    /// Write the messages just taken to the socket.
    Deliver,
    /// Nothing pending: suspend for one poll interval instead of spinning.
    Idle,
    /// The connection is gone from the registry; the writer exits its loop.
    Exit,
}

/// The writer's polling decision: exit once the registry entry is gone,
/// idle while the queue is empty, deliver otherwise. Write failures do not
/// reach this decision: the transport logs them and drops the message, and
/// the connection stays open.
pub fn writer_step(registered: bool, pending: usize) -> (action: WriterAction)
    ensures
        !registered ==> action == WriterAction::Exit,
        registered && pending == 0 ==> action == WriterAction::Idle,
        registered && pending > 0 ==> action == WriterAction::Deliver,
{
    if !registered {
        WriterAction::Exit
    } else if pending == 0 {
        WriterAction::Idle
    } else {
        WriterAction::Deliver
    }
}

} // verus!
