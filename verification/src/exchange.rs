//! What holds of a client, and of a client and a server together: a client
//! has one request in flight at a time, resolves a call only to a response
//! that holds what was asked for, and gets back exactly what the service
//! answered.

use vstd::prelude::*;
use crate::client::{
    ClientActionView, ClientError, ClientEventView, ClientState, accepted, client_next, fulfils,
    outstanding,
};
use crate::format::{decoded_response, received, response_frame};
use crate::frame::{RequestAduView, ResponseAduView, ResponseView};
use crate::server::OutcomeView;
use crate::theorems::theorem_response_round_trip;
use crate::traces::answer_to;
use crate::wire::lemma_padded;

verus! {

/// A call resolves only to a response that holds what was asked for, from
/// the device that was asked.
pub proof fn theorem_accepted_fulfils(request: RequestAduView, reply: ResponseAduView)
    requires
        request.wf(),
        accepted(outstanding(request), reply) is Ok,
    ensures
        reply.slave_id == request.slave_id,
        fulfils(accepted(outstanding(request), reply)->Ok_0, request.request),
{
}

/// What a call resolves to when the service has answered `outcome`: the
/// response, or the reason for the refusal as an error.
pub open spec fn resolved(outcome: OutcomeView) -> Result<ResponseView, ClientError> {
    match outcome {
        Ok(response) => Ok(response),
        Err(exception) => Err(ClientError::Exception(exception)),
    }
}

/// A client gets back what the service answered. Let a service answer a
/// request with a refusal, or with a response that respects the limits of
/// the protocol and holds what was asked for. Then the server has a reply to
/// send, the frame of that reply decodes on the client's side, and what it
/// decodes to resolves the call to exactly the response that the service
/// gave, or to an error with exactly the reason of the refusal.
pub proof fn theorem_exchange_resolves(request: RequestAduView, outcome: OutcomeView)
    requires
        request.wf(),
        outcome matches Ok(response) ==> response.wf() && fulfils(response, request.request),
    ensures
        answer_to(request, outcome) is Some,
        decoded_response(response_frame(answer_to(request, outcome)->0)) is Frame,
        accepted(
            outstanding(request),
            decoded_response(response_frame(answer_to(request, outcome)->0))->Frame_0,
        ) == resolved(outcome),
{
    let reply = answer_to(request, outcome)->0;
    theorem_response_round_trip(reply, response_frame(reply));
    let wire = ResponseAduView { slave_id: reply.slave_id, reply: received(reply.reply) };
    match outcome {
        Ok(ResponseView::ReadCoils(coils)) => {
            lemma_padded(coils);
        },
        Ok(ResponseView::ReadDiscreteInputs(coils)) => {
            lemma_padded(coils);
        },
        _ => {},
    }
}

/// Where a client stands after a run of events.
pub open spec fn client_state_after(start: ClientState, events: Seq<ClientEventView>)
    -> ClientState
    decreases events.len(),
{
    if events.len() == 0 {
        start
    } else {
        client_next(client_state_after(start, events.drop_last()), events.last()).0
    }
}

/// The action that the event at index `at` of a run leads a client to.
pub open spec fn client_action_at(start: ClientState, events: Seq<ClientEventView>, at: int)
    -> ClientActionView {
    client_next(client_state_after(start, events.take(at)), events[at]).1
}

/// The state after one more event is the state that follows the state
/// before it.
pub proof fn lemma_client_state_after_step(
    start: ClientState,
    events: Seq<ClientEventView>,
    at: int,
)
    requires
        0 <= at < events.len(),
    ensures
        client_state_after(start, events.take(at + 1)) == client_next(
            client_state_after(start, events.take(at)),
            events[at],
        ).0,
{
    assert(events.take(at + 1).drop_last() =~= events.take(at));
}

/// A client that waits keeps waiting as long as no event resolves the call
/// in flight.
proof fn lemma_still_waiting(
    start: ClientState,
    events: Seq<ClientEventView>,
    from: int,
    to: int,
)
    requires
        0 <= from <= to <= events.len(),
        client_state_after(start, events.take(from)) is Waiting,
        forall|at: int| from <= at < to ==> !(client_action_at(start, events, at) is Resolve),
    ensures
        client_state_after(start, events.take(to)) is Waiting,
    decreases to - from,
{
    if from < to {
        lemma_still_waiting(start, events, from, to - 1);
        lemma_client_state_after_step(start, events, to - 1);
        assert(!(client_action_at(start, events, to - 1) is Resolve));
    }
}

/// One request is in flight at a time: between any two requests that a
/// client sends, the call of the first is resolved.
pub proof fn theorem_one_request_in_flight(
    start: ClientState,
    events: Seq<ClientEventView>,
    first: int,
    second: int,
)
    requires
        0 <= first < second < events.len(),
        client_action_at(start, events, first) is Send,
        client_action_at(start, events, second) is Send,
    ensures
        exists|between: int|
            first < between < second && client_action_at(start, events, between) is Resolve,
{
    lemma_client_state_after_step(start, events, first);
    if !exists|between: int|
        first < between < second && client_action_at(start, events, between) is Resolve {
        lemma_still_waiting(start, events, first + 1, second);
    }
}

} // verus!
