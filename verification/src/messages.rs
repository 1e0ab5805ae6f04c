//! The two request operations the server understands, the responses it gives,
//! and the mathematical model each of them is specified against.

use vstd::prelude::*;

verus! {

/// A request to send the given content back unchanged, and the response that
/// carries it back.
#[derive(Debug, PartialEq)]
pub struct EchoMessage {
    pub content: String,
}

/// A request to add two 32-bit signed integers.
#[derive(Debug, PartialEq)]
pub struct AddRequest {
    pub a: i32,
    pub b: i32,
}

/// The reply to an `AddRequest`: the wrapping 32-bit sum of its operands.
#[derive(Debug, PartialEq)]
pub struct AddResponse {
    pub result: i32,
}

/// The payload of a client message: one of the two supported operations.
#[derive(Debug, PartialEq)]
pub enum ClientPayload {
    EchoMessage(EchoMessage),
    AddRequest(AddRequest),
}

/// The payload of a server message: the reply to one client payload.
#[derive(Debug, PartialEq)]
pub enum ServerPayload {
    EchoMessage(EchoMessage),
    AddResponse(AddResponse),
}

/// A message read from a client. The payload is optional on the wire: a
/// message that decodes but carries no payload is discarded without an answer.
#[derive(Debug, PartialEq)]
pub struct ClientMessage {
    pub message: Option<ClientPayload>,
}

/// A message written back to a client.
#[derive(Debug, PartialEq)]
pub struct ServerMessage {
    pub message: Option<ServerPayload>,
}

/// Mathematical view of a request payload.
pub enum RequestModel {
    Echo { content: Seq<char> },
    Add { a: i32, b: i32 },
}

/// Mathematical view of a response payload.
pub enum ResponseModel {
    Echo { content: Seq<char> },
    Sum { result: i32 },
}

impl View for ClientPayload {
    type V = RequestModel;

    open spec fn view(&self) -> RequestModel {
        match self {
            ClientPayload::EchoMessage(echo) => RequestModel::Echo { content: echo.content@ },
            ClientPayload::AddRequest(add) => RequestModel::Add { a: add.a, b: add.b },
        }
    }
}

impl View for ServerPayload {
    type V = ResponseModel;

    open spec fn view(&self) -> ResponseModel {
        match self {
            ServerPayload::EchoMessage(echo) => ResponseModel::Echo { content: echo.content@ },
            ServerPayload::AddResponse(add) => ResponseModel::Sum { result: add.result },
        }
    }
}

impl View for ClientMessage {
    type V = Option<RequestModel>;

    open spec fn view(&self) -> Option<RequestModel> {
        match self.message {
            Some(payload) => Some(payload@),
            None => None,
        }
    }
}

impl View for ServerMessage {
    type V = Option<ResponseModel>;

    open spec fn view(&self) -> Option<ResponseModel> {
        match self.message {
            Some(payload) => Some(payload@),
            None => None,
        }
    }
}

/// The one response owed to a request: echo returns the content unchanged,
/// add returns the wrapping 32-bit sum — no overflow check is performed.
pub open spec fn response_for(req: RequestModel) -> ResponseModel {
    match req {
        RequestModel::Echo { content } => ResponseModel::Echo { content },
        RequestModel::Add { a, b } => ResponseModel::Sum {
            result: vstd::wrapping::i32_specs::wrapping_add(a, b),
        },
    }
}

/// Computes the reply to one decoded client payload.
pub fn dispatch(payload: ClientPayload) -> (resp: ServerPayload)
    ensures
        resp@ == response_for(payload@),
{
    match payload {
        ClientPayload::EchoMessage(echo) => ServerPayload::EchoMessage(EchoMessage {
            content: echo.content,
        }),
        ClientPayload::AddRequest(add) => ServerPayload::AddResponse(AddResponse {
            result: add.a.wrapping_add(add.b),
        }),
    }
}

} // verus!
