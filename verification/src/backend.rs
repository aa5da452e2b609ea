//! Decisions of the TCP hashing backend: its accept loop and the loop that
//! serves one connection.

use vstd::prelude::*;
use crate::request::{is_complete_request, respond_to_request, response_for};

verus! {

/// What the accept loop of the backend observed.
pub enum AcceptEvent {
    /// The shutdown token was cancelled.
    Cancelled,
    /// A connection was accepted.
    Accepted,
    /// Accepting a connection failed.
    AcceptFailed,
}

/// What the accept loop does next.
#[derive(PartialEq, Eq, Structural)]
pub enum AcceptAction {
    /// Stop the backend successfully.
    Shutdown,
    /// Serve the accepted connection on a task of its own and keep accepting.
    Serve,
    /// Stop the backend with the accept error.
    Fail,
}

/// One turn of the backend's accept loop: stop on cancellation, serve an
/// accepted connection, give up on an accept error.
pub fn accept_step(event: &AcceptEvent) -> (action: AcceptAction)
    ensures
        action == match event {
            AcceptEvent::Cancelled => AcceptAction::Shutdown,
            AcceptEvent::Accepted => AcceptAction::Serve,
            AcceptEvent::AcceptFailed => AcceptAction::Fail,
        },
{
    match event {
        AcceptEvent::Cancelled => AcceptAction::Shutdown,
        AcceptEvent::Accepted => AcceptAction::Serve,
        AcceptEvent::AcceptFailed => AcceptAction::Fail,
    }
}

/// What the loop serving one connection observed.
pub enum ConnectionEvent {
    /// The shutdown token was cancelled.
    Cancelled,
    /// Reading from the connection failed.
    ReadFailed,
    /// A read returned these bytes (none when the peer has closed).
    Read(Vec<u8>),
}

/// What the loop serving one connection does next.
pub enum ConnectionAction {
    /// Stop serving the connection.
    Close,
    /// Read again.
    ReadAgain,
    /// Write this response, then read again.
    Respond(String),
}

/// The requests a connection loop can be handed: a non-empty read must be a
/// complete request, since the backend fails on anything else.
pub open spec fn connection_event_ok(event: &ConnectionEvent) -> bool {
    match event {
        ConnectionEvent::Read(bytes) => bytes@.len() > 0 ==> is_complete_request(bytes@),
        _ => true,
    }
}

/// One turn of the loop serving a connection: close on cancellation, read
/// again after a failed or empty read, and answer a request with the
/// requester line and the hash of its body line.
pub fn connection_step(event: &ConnectionEvent) -> (action: ConnectionAction)
    requires
        connection_event_ok(event),
    ensures
        match event {
            ConnectionEvent::Cancelled => action is Close,
            ConnectionEvent::ReadFailed => action is ReadAgain,
            ConnectionEvent::Read(bytes) => if bytes@.len() == 0 {
                action is ReadAgain
            } else {
                action matches ConnectionAction::Respond(response) && response@ == response_for(bytes@)
            },
        },
{
    match event {
        ConnectionEvent::Cancelled => ConnectionAction::Close,
        ConnectionEvent::ReadFailed => ConnectionAction::ReadAgain,
        ConnectionEvent::Read(bytes) => {
            if bytes.len() == 0 {
                ConnectionAction::ReadAgain
            } else {
                ConnectionAction::Respond(respond_to_request(bytes.as_slice()))
            }
        },
    }
}

} // verus!
