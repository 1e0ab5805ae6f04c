//! What a whole connection produces: the responses owed to a sequence of
//! decoded reads, in arrival order, and how sessions on different connections
//! relate when their reads interleave in real time.

use vstd::prelude::*;

use crate::handler::{handler_step, HandlerAction, ReadEvent, ReadEventModel};
use crate::messages::{
    dispatch, response_for, ClientMessage, RequestModel, ResponseModel, ServerMessage,
};

verus! {

/// The views of a connection's decoded reads, in arrival order. `None` stands
/// for a message that decoded but carried no payload.
pub open spec fn request_views(msgs: Seq<ClientMessage>) -> Seq<Option<RequestModel>> {
    msgs.map_values(|m: ClientMessage| m@)
}

/// The responses one connection produces for a sequence of decoded reads:
/// one response per request, in arrival order, and none for a read whose
/// message carried no payload.
pub open spec fn session_responses(reads: Seq<Option<RequestModel>>) -> Seq<ResponseModel>
    decreases reads.len(),
{
    if reads.len() == 0 {
        Seq::empty()
    } else {
        let rest = session_responses(reads.drop_first());
        match reads[0] {
            Some(req) => seq![response_for(req)] + rest,
            None => rest,
        }
    }
}

/// The requests of a sequence of reads that carried a payload, in arrival
/// order.
pub open spec fn decoded_requests(reads: Seq<Option<RequestModel>>) -> Seq<RequestModel>
    decreases reads.len(),
{
    if reads.len() == 0 {
        Seq::empty()
    } else {
        let rest = decoded_requests(reads.drop_first());
        match reads[0] {
            Some(req) => seq![req] + rest,
            None => rest,
        }
    }
}

/// A session processed in two parts answers the earlier part first: responses
/// never reorder across a split of the read stream.
pub proof fn lemma_session_append(a: Seq<Option<RequestModel>>, b: Seq<Option<RequestModel>>)
    ensures
        session_responses(a + b) == session_responses(a) + session_responses(b),
    decreases a.len(),
{
    if a.len() == 0 {
        assert(a + b =~= b);
        assert(session_responses(a) + session_responses(b) =~= session_responses(b));
    } else {
        assert((a + b)[0] == a[0]);
        assert((a + b).drop_first() =~= a.drop_first() + b);
        lemma_session_append(a.drop_first(), b);
        assert(session_responses(a + b) =~= session_responses(a) + session_responses(b));
    }
}

/// Request/response pairing is first-in first-out: the responses of a session
/// are exactly the image of its decoded requests, in arrival order — the
/// i-th response answers the i-th successfully decoded request.
pub proof fn lemma_session_fifo(reads: Seq<Option<RequestModel>>)
    ensures
        session_responses(reads) == decoded_requests(reads).map_values(
            |req: RequestModel| response_for(req),
        ),
    decreases reads.len(),
{
    if reads.len() == 0 {
        assert(session_responses(reads) =~= decoded_requests(reads).map_values(
            |req: RequestModel| response_for(req),
        ));
    } else {
        lemma_session_fifo(reads.drop_first());
        assert(session_responses(reads) =~= decoded_requests(reads).map_values(
            |req: RequestModel| response_for(req),
        ));
    }
}

/// Processes one connection's decoded messages in arrival order and collects
/// the written responses: the executable form of `session_responses`.
pub fn run_session(msgs: Vec<ClientMessage>) -> (out: Vec<ServerMessage>)
    ensures
        out@.len() == session_responses(request_views(msgs@)).len(),
        forall|i: int|
            0 <= i < out@.len() ==> out@[i]@ == Some(
                #[trigger] session_responses(request_views(msgs@))[i],
            ),
{
    let ghost all = msgs@;
    let mut rest = msgs;
    let mut out: Vec<ServerMessage> = Vec::new();
    proof {
        assert(out@.map_values(|m: ServerMessage| m@->0) + session_responses(request_views(rest@))
            =~= session_responses(request_views(all)));
    }
    while rest.len() > 0
        invariant
            session_responses(request_views(all)) == out@.map_values(|m: ServerMessage| m@->0)
                + session_responses(request_views(rest@)),
            forall|i: int| 0 <= i < out@.len() ==> (#[trigger] out@[i]@) is Some,
        decreases rest.len(),
    {
        let ghost out_before = out@;
        let ghost rest_before = rest@;
        let m = rest.remove(0);
        let ghost mv = m@;
        proof {
            assert(request_views(rest_before).drop_first() =~= request_views(rest@));
            assert(request_views(rest_before)[0] == mv);
        }
        match m.message {
            Some(payload) => {
                let reply = ServerMessage { message: Some(dispatch(payload)) };
                out.push(reply);
                proof {
                    assert(out@.map_values(|m: ServerMessage| m@->0) =~= out_before.map_values(
                        |m: ServerMessage| m@->0,
                    ) + seq![response_for(mv->0)]);
                    assert(session_responses(request_views(all)) =~= out@.map_values(
                        |m: ServerMessage| m@->0,
                    ) + session_responses(request_views(rest@)));
                }
            },
            None => {},
        }
    }
    proof {
        assert(request_views(rest@) =~= Seq::<Option<RequestModel>>::empty());
        assert(session_responses(request_views(all)) =~= out@.map_values(
            |m: ServerMessage| m@->0,
        ));
    }
    out
}

/// The views of a trace of handler-loop iterations: the running flag as the
/// loop observed it that iteration — another thread owns clearing it — and
/// the outcome of the read attempt.
pub open spec fn step_views(steps: Seq<(bool, ReadEvent)>) -> Seq<(bool, ReadEventModel)> {
    steps.map_values(|s: (bool, ReadEvent)| (s.0, s.1@))
}

/// The responses a handler loop writes over a trace of iterations: each
/// decoded request is answered at once, and the loop ends at the first
/// cleared flag, peer close or read error — nothing after that is answered.
pub open spec fn handler_trace_responses(steps: Seq<(bool, ReadEventModel)>) -> Seq<ResponseModel>
    decreases steps.len(),
{
    if steps.len() == 0 {
        Seq::empty()
    } else if !steps[0].0 {
        Seq::empty()
    } else {
        match steps[0].1 {
            ReadEventModel::Closed => Seq::empty(),
            ReadEventModel::Failed => Seq::empty(),
            ReadEventModel::Received(read) => {
                let rest = handler_trace_responses(steps.drop_first());
                match read {
                    Some(req) => seq![response_for(req)] + rest,
                    None => rest,
                }
            },
            ReadEventModel::Malformed => handler_trace_responses(steps.drop_first()),
            ReadEventModel::WouldBlock => handler_trace_responses(steps.drop_first()),
        }
    }
}

/// The decoded reads a trace delivers before it ends the loop, in arrival
/// order; a malformed read delivers nothing decodable.
pub open spec fn delivered_reads(steps: Seq<(bool, ReadEventModel)>) -> Seq<Option<RequestModel>>
    decreases steps.len(),
{
    if steps.len() == 0 {
        Seq::empty()
    } else if !steps[0].0 {
        Seq::empty()
    } else {
        match steps[0].1 {
            ReadEventModel::Closed => Seq::empty(),
            ReadEventModel::Failed => Seq::empty(),
            ReadEventModel::Received(read) => seq![read] + delivered_reads(steps.drop_first()),
            ReadEventModel::Malformed => delivered_reads(steps.drop_first()),
            ReadEventModel::WouldBlock => delivered_reads(steps.drop_first()),
        }
    }
}

/// The handler loop keeps the session semantics: over any trace, the
/// responses it writes are exactly the session responses of the reads the
/// trace delivered before the loop ended.
pub proof fn lemma_trace_matches_session(steps: Seq<(bool, ReadEventModel)>)
    ensures
        handler_trace_responses(steps) == session_responses(delivered_reads(steps)),
    decreases steps.len(),
{
    if steps.len() == 0 {
    } else if !steps[0].0 {
    } else {
        lemma_trace_matches_session(steps.drop_first());
        match steps[0].1 {
            ReadEventModel::Received(read) => {
                assert((seq![read] + delivered_reads(steps.drop_first())).drop_first()
                    =~= delivered_reads(steps.drop_first()));
            },
            _ => {},
        }
    }
}

/// Runs the handler loop over a trace of observed flag values and read
/// outcomes: each iteration asks `handler_step` what to do and performs it,
/// collecting the replies in write order, until the step says to leave.
/// This is the loop of the connection thread, with the socket abstracted to
/// the outcomes it yields.
pub fn run_handler(steps: Vec<(bool, ReadEvent)>) -> (out: Vec<ServerMessage>)
    ensures
        out@.len() == handler_trace_responses(step_views(steps@)).len(),
        forall|i: int|
            0 <= i < out@.len() ==> out@[i]@ == Some(
                #[trigger] handler_trace_responses(step_views(steps@))[i],
            ),
{
    let ghost all = step_views(steps@);
    let mut rest = steps;
    let mut out: Vec<ServerMessage> = Vec::new();
    let mut done = false;
    proof {
        assert(out@.map_values(|m: ServerMessage| m@->0) + handler_trace_responses(
            step_views(rest@),
        ) =~= handler_trace_responses(all));
    }
    while !done && rest.len() > 0
        invariant
            !done ==> handler_trace_responses(all) == out@.map_values(|m: ServerMessage| m@->0)
                + handler_trace_responses(step_views(rest@)),
            done ==> handler_trace_responses(all) == out@.map_values(|m: ServerMessage| m@->0),
            forall|i: int| 0 <= i < out@.len() ==> (#[trigger] out@[i]@) is Some,
        decreases rest.len(),
    {
        let ghost out_before = out@;
        let ghost rest_before = rest@;
        let (running, event) = rest.remove(0);
        let ghost ev = event@;
        proof {
            assert(step_views(rest_before).drop_first() =~= step_views(rest@));
            assert(step_views(rest_before)[0] == (running, ev));
        }
        match handler_step(running, event) {
            HandlerAction::Exit => {
                proof {
                    assert(handler_trace_responses(all) =~= out@.map_values(
                        |m: ServerMessage| m@->0,
                    ));
                }
                done = true;
            },
            HandlerAction::Fail => {
                proof {
                    assert(handler_trace_responses(all) =~= out@.map_values(
                        |m: ServerMessage| m@->0,
                    ));
                }
                done = true;
            },
            HandlerAction::Reply(resp) => {
                let ghost rv = resp@;
                out.push(resp);
                proof {
                    assert(out@.map_values(|m: ServerMessage| m@->0) =~= out_before.map_values(
                        |m: ServerMessage| m@->0,
                    ) + seq![rv->0]);
                    assert(handler_trace_responses(all) =~= out@.map_values(
                        |m: ServerMessage| m@->0,
                    ) + handler_trace_responses(step_views(rest@)));
                }
            },
            HandlerAction::Discard => {},
            HandlerAction::Wait => {},
        }
    }
    proof {
        if !done {
            assert(step_views(rest@) =~= Seq::<(bool, ReadEventModel)>::empty());
        }
        assert(handler_trace_responses(all) =~= out@.map_values(|m: ServerMessage| m@->0));
    }
    out
}

/// The tagged responses produced when the decoded reads of many connections
/// are handled in one global arrival order: each read is answered at once, on
/// the connection it arrived on. Connection handlers share no state, so the
/// global behaviour is this and nothing more.
pub open spec fn interleaved_responses(reads: Seq<(nat, Option<RequestModel>)>) -> Seq<
    (nat, ResponseModel),
>
    decreases reads.len(),
{
    if reads.len() == 0 {
        Seq::empty()
    } else {
        let rest = interleaved_responses(reads.drop_first());
        match reads[0].1 {
            Some(req) => seq![(reads[0].0, response_for(req))] + rest,
            None => rest,
        }
    }
}

/// The reads that arrived on one connection, in arrival order.
pub open spec fn reads_of(reads: Seq<(nat, Option<RequestModel>)>, conn: nat) -> Seq<
    Option<RequestModel>,
>
    decreases reads.len(),
{
    if reads.len() == 0 {
        Seq::empty()
    } else {
        let rest = reads_of(reads.drop_first(), conn);
        if reads[0].0 == conn {
            seq![reads[0].1] + rest
        } else {
            rest
        }
    }
}

/// The responses written to one connection, in write order.
pub open spec fn responses_of(out: Seq<(nat, ResponseModel)>, conn: nat) -> Seq<ResponseModel>
    decreases out.len(),
{
    if out.len() == 0 {
        Seq::empty()
    } else {
        let rest = responses_of(out.drop_first(), conn);
        if out[0].0 == conn {
            seq![out[0].1] + rest
        } else {
            rest
        }
    }
}

/// Connections are independent: however the reads of any number of
/// connections interleave, each connection receives exactly the responses of
/// its own session, in its own order — the other connections' traffic does
/// not interfere.
pub proof fn lemma_connections_independent(reads: Seq<(nat, Option<RequestModel>)>, conn: nat)
    ensures
        responses_of(interleaved_responses(reads), conn) == session_responses(
            reads_of(reads, conn),
        ),
    decreases reads.len(),
{
    if reads.len() == 0 {
    } else {
        lemma_connections_independent(reads.drop_first(), conn);
        let rest_out = interleaved_responses(reads.drop_first());
        match reads[0].1 {
            Some(req) => {
                let head = (reads[0].0, response_for(req));
                assert((seq![head] + rest_out).drop_first() =~= rest_out);
                if reads[0].0 == conn {
                    assert(reads_of(reads, conn) == seq![reads[0].1] + reads_of(
                        reads.drop_first(),
                        conn,
                    ));
                    assert((seq![reads[0].1] + reads_of(reads.drop_first(), conn)).drop_first()
                        =~= reads_of(reads.drop_first(), conn));
                    assert(responses_of(interleaved_responses(reads), conn) =~= session_responses(
                        reads_of(reads, conn),
                    ));
                } else {
                    assert(responses_of(interleaved_responses(reads), conn) =~= session_responses(
                        reads_of(reads, conn),
                    ));
                }
            },
            None => {
                if reads[0].0 == conn {
                    assert(reads_of(reads, conn) == seq![reads[0].1] + reads_of(
                        reads.drop_first(),
                        conn,
                    ));
                    assert((seq![reads[0].1] + reads_of(reads.drop_first(), conn)).drop_first()
                        =~= reads_of(reads.drop_first(), conn));
                    assert(responses_of(interleaved_responses(reads), conn) =~= session_responses(
                        reads_of(reads, conn),
                    ));
                } else {
                    assert(responses_of(interleaved_responses(reads), conn) =~= session_responses(
                        reads_of(reads, conn),
                    ));
                }
            },
        }
    }
}

} // verus!
