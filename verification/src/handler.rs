//! The per-connection handler loop, reduced to its decision: what one read
//! outcome makes the handler do next.
//!
//! The loop around it is plain I/O: read from the socket, hand the outcome to
//! [`handler_step`], then perform the action it returns — write the reply,
//! sleep briefly, or leave the loop. Every decision the loop takes is made
//! here and is pinned by the contract.

use vstd::prelude::*;

use crate::messages::{dispatch, response_for, ClientMessage, RequestModel, ServerMessage};

verus! {

/// One outcome of a read attempt on a connection, as the handler loop sees it.
#[derive(Debug, PartialEq)]
pub enum ReadEvent {
    /// The read returned zero bytes: the peer closed the connection.
    Closed,
    /// Bytes were read and decoded into one message.
    Received(ClientMessage),
    /// Bytes were read but no message could be decoded from them.
    Malformed,
    /// No data was available on the non-blocking socket.
    WouldBlock,
    /// The read failed with a connection-fatal error.
    Failed,
}

/// What the handler loop does next in response to one read outcome.
#[derive(Debug, PartialEq)]
pub enum HandlerAction {
    /// Leave the loop normally: the server is shutting down, or the peer
    /// disconnected cleanly.
    Exit,
    /// Log the read error and leave the loop; other connections and the
    /// acceptor are unaffected.
    Fail,
    /// Write this response back, then continue the loop. A write failure is
    /// fatal to this handler alone.
    Reply(ServerMessage),
    /// Send nothing and continue the loop: malformed or empty input is
    /// discarded, and the connection stays open.
    Discard,
    /// Sleep briefly, then retry the read.
    Wait,
}

/// Mathematical view of one read outcome.
pub enum ReadEventModel {
    Closed,
    /// A decoded message; `None` stands for one that carried no payload.
    Received(Option<RequestModel>),
    Malformed,
    WouldBlock,
    Failed,
}

impl View for ReadEvent {
    type V = ReadEventModel;

    open spec fn view(&self) -> ReadEventModel {
        match self {
            ReadEvent::Closed => ReadEventModel::Closed,
            ReadEvent::Received(m) => ReadEventModel::Received(m@),
            ReadEvent::Malformed => ReadEventModel::Malformed,
            ReadEvent::WouldBlock => ReadEventModel::WouldBlock,
            ReadEvent::Failed => ReadEventModel::Failed,
        }
    }
}

/// Decides one iteration of the handler loop from the running flag and the
/// outcome of the read attempt. Exactly one response is owed per successfully
/// decoded request, and it is the response `response_for` gives.
pub fn handler_step(running: bool, event: ReadEvent) -> (action: HandlerAction)
    ensures
        !running ==> action is Exit,
        running ==> match event {
            ReadEvent::Closed => action is Exit,
            ReadEvent::Received(m) => match m@ {
                Some(req) => action matches HandlerAction::Reply(resp) && resp@ == Some(
                    response_for(req),
                ),
                None => action is Discard,
            },
            ReadEvent::Malformed => action is Discard,
            ReadEvent::WouldBlock => action is Wait,
            ReadEvent::Failed => action is Fail,
        },
{
    if !running {
        return HandlerAction::Exit;
    }
    match event {
        ReadEvent::Closed => HandlerAction::Exit,
        ReadEvent::Received(m) => match m.message {
            Some(payload) => HandlerAction::Reply(ServerMessage { message: Some(dispatch(payload)) }),
            None => HandlerAction::Discard,
        },
        ReadEvent::Malformed => HandlerAction::Discard,
        ReadEvent::WouldBlock => HandlerAction::Wait,
        ReadEvent::Failed => HandlerAction::Fail,
    }
}

} // verus!
