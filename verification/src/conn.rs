//! The per-connection protocol: the state machine every connection
//! handler follows. A connection sends one full initial snapshot, then
//! forwards every fan-out message verbatim while watching the inbound
//! side only for liveness; anything unexpected from the client, a
//! transport error, or falling behind the fan-out stream terminates
//! just this connection, never any other.

use vstd::prelude::*;

verus! {

/// Where a connection stands in its lifetime.
pub enum ConnectionState {
    Connecting,
    SentInitialState,
    Streaming,
    Closing,
    Closed,
}

/// What can wake a streaming connection: one side of the race between
/// the outbound fan-out feed and the inbound client frames.
pub enum ConnectionEvent {
    /// The next serialized change message to forward.
    FanoutMessage(Vec<u8>),
    /// The connection fell behind the fan-out window: desynchronized.
    FanoutLagged,
    /// The fan-out channel ended: the service is shutting down.
    FanoutClosed,
    /// A protocol-level keepalive from the client.
    ClientPing,
    /// Any other client-originated frame.
    ClientPayload,
    /// A transport read error.
    ClientError,
    /// The client closed the transport.
    ClientClosed,
}

/// What the handler must do next with the transport.
pub enum ConnectionAction {
    /// Send the frame to the client.
    Forward(Vec<u8>),
    /// Do nothing and keep streaming.
    Ignore,
    /// Perform the close handshake with the transport.
    StartClose,
}

/// A connection was accepted: the handler must copy the full shared
/// state and subscribe to the fan-out channel in that order, under one
/// read lock, then send the copy as the initial-state message.
pub fn on_accepted(state: ConnectionState) -> (r: ConnectionState)
    requires
        state is Connecting,
    ensures
        r is SentInitialState,
{
    ConnectionState::SentInitialState
}

/// The initial-state message went out: the connection streams from now
/// on.
pub fn on_initial_sent(state: ConnectionState) -> (r: ConnectionState)
    requires
        state is SentInitialState,
    ensures
        r is Streaming,
{
    ConnectionState::Streaming
}

/// One step of the streaming race, exactly as the protocol demands:
/// fan-out messages are forwarded verbatim and the connection keeps
/// streaming; a keepalive is ignored; any other client frame, a read
/// error, the end of either side, or falling behind the fan-out window
/// moves the connection to `Closing` for a clean close handshake.
pub fn conn_step(state: ConnectionState, event: ConnectionEvent) -> (r: (
    ConnectionState,
    ConnectionAction,
))
    requires
        state is Streaming,
    ensures
        match event {
            ConnectionEvent::FanoutMessage(m) => r.0 is Streaming && (r.1 matches
                ConnectionAction::Forward(f) && f@ == m@),
            ConnectionEvent::ClientPing => r.0 is Streaming && r.1 is Ignore,
            ConnectionEvent::FanoutLagged => r.0 is Closing && r.1 is StartClose,
            ConnectionEvent::FanoutClosed => r.0 is Closing && r.1 is StartClose,
            ConnectionEvent::ClientPayload => r.0 is Closing && r.1 is StartClose,
            ConnectionEvent::ClientError => r.0 is Closing && r.1 is StartClose,
            ConnectionEvent::ClientClosed => r.0 is Closing && r.1 is StartClose,
        },
{
    match event {
        ConnectionEvent::FanoutMessage(m) => (
            ConnectionState::Streaming,
            ConnectionAction::Forward(m),
        ),
        ConnectionEvent::ClientPing => (ConnectionState::Streaming, ConnectionAction::Ignore),
        ConnectionEvent::FanoutLagged => (ConnectionState::Closing, ConnectionAction::StartClose),
        ConnectionEvent::FanoutClosed => (ConnectionState::Closing, ConnectionAction::StartClose),
        ConnectionEvent::ClientPayload => (ConnectionState::Closing, ConnectionAction::StartClose),
        ConnectionEvent::ClientError => (ConnectionState::Closing, ConnectionAction::StartClose),
        ConnectionEvent::ClientClosed => (ConnectionState::Closing, ConnectionAction::StartClose),
    }
}

/// The close handshake finished: the connection is gone for good.
pub fn on_close_done(state: ConnectionState) -> (r: ConnectionState)
    requires
        state is Closing,
    ensures
        r is Closed,
{
    ConnectionState::Closed
}

} // verus!
