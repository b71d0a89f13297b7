use vstd::prelude::*;

verus! {

/// Something that happened on a client's WebSocket connection.
#[derive(Debug, Clone, PartialEq, Eq)]
pub enum ConnectionEvent {
    /// A message broadcast by the streaming pipeline arrived for this client.
    Broadcast(Vec<u8>),
    /// Sending a message to the client failed.
    SendFailed,
    /// The client sent a message.
    ClientMessage,
    /// Receiving from the client failed.
    ClientError,
    /// The client closed the connection.
    ClientClosed,
}

/// What the connection handler does next.
#[derive(Debug, Clone, PartialEq, Eq)]
pub enum ConnectionAction {
    /// Send these bytes to the client as a binary message.
    Send(Vec<u8>),
    /// Wait for the next event.
    Wait,
    /// Stop serving this client.
    Disconnect,
}

/// Decides the next step of a client connection: broadcast messages are
/// forwarded to the client unchanged, messages from the client are ignored,
/// and a failed send, a receive error or a closed connection ends it.
pub fn connection_step(event: ConnectionEvent) -> (action: ConnectionAction)
    ensures
        match event {
            ConnectionEvent::Broadcast(payload) => action matches ConnectionAction::Send(bytes)
                && bytes@ == payload@,
            ConnectionEvent::ClientMessage => action is Wait,
            _ => action is Disconnect,
        },
{
    match event {
        ConnectionEvent::Broadcast(payload) => ConnectionAction::Send(payload),
        ConnectionEvent::ClientMessage => ConnectionAction::Wait,
        ConnectionEvent::SendFailed => ConnectionAction::Disconnect,
        ConnectionEvent::ClientError => ConnectionAction::Disconnect,
        ConnectionEvent::ClientClosed => ConnectionAction::Disconnect,
    }
}

} // verus!
