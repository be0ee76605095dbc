//! What holds of a server over a whole run of events: replies go out in the
//! order of their requests, each reply answers the request that was handed
//! to the service last, a service that refuses does not stop the server,
//! nothing goes out once shutdown is asked for, and no write is abandoned
//! half done.

use vstd::prelude::*;
use crate::frame::{
    Exception, ExceptionResponse, RequestAduView, ResponseAduView, ResponseView, reply_function,
};
use crate::server::{
    OutcomeView, ServerActionView, ServerEventView, ServerState, Stop, answer, next,
};

verus! {

/// Where a connection stands after a run of events.
pub open spec fn state_after(start: ServerState, events: Seq<ServerEventView>) -> ServerState
    decreases events.len(),
{
    if events.len() == 0 {
        start
    } else {
        next(state_after(start, events.drop_last()), events.last()).0
    }
}

/// The action that the event at index `at` of a run leads to.
pub open spec fn action_at(start: ServerState, events: Seq<ServerEventView>, at: int)
    -> ServerActionView {
    next(state_after(start, events.take(at)), events[at]).1
}

/// The actions that a run of events leads to, one for each event.
pub open spec fn actions(start: ServerState, events: Seq<ServerEventView>) -> Seq<
    ServerActionView,
> {
    Seq::new(events.len(), |at: int| action_at(start, events, at))
}

/// The replies among a run of actions, in their order.
pub open spec fn sent(actions: Seq<ServerActionView>) -> Seq<ResponseAduView>
    decreases actions.len(),
{
    if actions.len() == 0 {
        Seq::empty()
    } else {
        match actions.last() {
            ServerActionView::Send(adu) => sent(actions.drop_last()).push(adu),
            _ => sent(actions.drop_last()),
        }
    }
}

/// The events of a run in which `requests` arrive one after the other, the
/// service answers the `k`-th of them with the `k`-th of `outcomes`, and each
/// reply is written before the next request arrives.
pub open spec fn session(requests: Seq<RequestAduView>, outcomes: Seq<OutcomeView>) -> Seq<
    ServerEventView,
> {
    Seq::new(
        3 * requests.len(),
        |i: int|
            if i % 3 == 0 {
                ServerEventView::Request(requests[i / 3])
            } else if i % 3 == 1 {
                ServerEventView::Handled(outcomes[i / 3])
            } else {
                ServerEventView::Sent
            },
    )
}

/// The reply that goes back for a request once the service has answered, if
/// one goes back.
pub open spec fn answer_to(request: RequestAduView, outcome: OutcomeView) -> Option<
    ResponseAduView,
> {
    answer(request.slave_id, request.request.function(), outcome)
}

/// The number of requests, from the first on, that the service answers with
/// a refusal or with a response that fits: the requests that get a reply.
pub open spec fn answered(requests: Seq<RequestAduView>, outcomes: Seq<OutcomeView>) -> nat
    decreases requests.len(),
{
    if requests.len() == 0 || outcomes.len() == 0 {
        0
    } else if answer_to(requests[0], outcomes[0]) is Some {
        1 + answered(requests.skip(1), outcomes.skip(1))
    } else {
        0
    }
}

/// The replies that go back for the requests that get one, in the order of
/// the requests.
pub open spec fn replies(requests: Seq<RequestAduView>, outcomes: Seq<OutcomeView>) -> Seq<
    ResponseAduView,
> {
    Seq::new(answered(requests, outcomes), |k: int| answer_to(requests[k], outcomes[k])->0)
}

/// The requests that get a reply are among the requests and among the
/// outcomes, each of them has a reply, and where they stop short of both,
/// the next answer does not fit its request.
pub proof fn lemma_answered(requests: Seq<RequestAduView>, outcomes: Seq<OutcomeView>)
    ensures
        answered(requests, outcomes) <= requests.len(),
        answered(requests, outcomes) <= outcomes.len(),
        forall|k: int|
            0 <= k < answered(requests, outcomes) ==> (#[trigger] answer_to(
                requests[k],
                outcomes[k],
            )) is Some,
        answered(requests, outcomes) < requests.len() && answered(requests, outcomes)
            < outcomes.len() ==> answer_to(
            requests[answered(requests, outcomes) as int],
            outcomes[answered(requests, outcomes) as int],
        ) is None,
    decreases requests.len(),
{
    if requests.len() > 0 && outcomes.len() > 0 && answer_to(requests[0], outcomes[0]) is Some {
        let later = requests.skip(1);
        let answers = outcomes.skip(1);
        lemma_answered(later, answers);
        assert forall|k: int| 0 <= k < answered(requests, outcomes) implies (#[trigger] answer_to(
            requests[k],
            outcomes[k],
        )) is Some by {
            if k > 0 {
                assert(answer_to(later[k - 1], answers[k - 1]) is Some);
            }
        }
        let n = answered(later, answers) as int;
        if n < later.len() && n < answers.len() {
            assert(later[n] == requests[n + 1] && answers[n] == outcomes[n + 1]);
        }
    }
}

/// The number of requests that get a reply is told by what marks it: every
/// request before it has a reply, and there the requests or the outcomes
/// end, or the answer does not fit its request.
pub proof fn lemma_answered_is(requests: Seq<RequestAduView>, outcomes: Seq<OutcomeView>, n: int)
    requires
        0 <= n <= requests.len(),
        n <= outcomes.len(),
        forall|k: int| 0 <= k < n ==> (#[trigger] answer_to(requests[k], outcomes[k])) is Some,
        n == requests.len() || n == outcomes.len() || answer_to(requests[n], outcomes[n]) is None,
    ensures
        answered(requests, outcomes) == n,
    decreases requests.len(),
{
    if n > 0 {
        let later = requests.skip(1);
        let answers = outcomes.skip(1);
        assert(answer_to(requests[0], outcomes[0]) is Some);
        assert forall|k: int| 0 <= k < n - 1 implies (#[trigger] answer_to(
            later[k],
            answers[k],
        )) is Some by {
            assert(answer_to(requests[k + 1], outcomes[k + 1]) is Some);
        }
        if n - 1 < later.len() && n - 1 < answers.len() {
            assert(later[n - 1] == requests[n] && answers[n - 1] == outcomes[n]);
        }
        lemma_answered_is(later, answers, n - 1);
    }
}

/// The state after one more event is the state that follows the state
/// before it.
pub proof fn lemma_state_after_step(start: ServerState, events: Seq<ServerEventView>, at: int)
    requires
        0 <= at < events.len(),
    ensures
        state_after(start, events.take(at + 1)) == next(
            state_after(start, events.take(at)),
            events[at],
        ).0,
{
    assert(events.take(at + 1).drop_last() =~= events.take(at));
}

/// The actions of the first events of a run are the first actions of the
/// run.
pub proof fn lemma_actions_of_prefix(start: ServerState, events: Seq<ServerEventView>, n: int)
    requires
        0 <= n <= events.len(),
    ensures
        actions(start, events.take(n)) == actions(start, events).take(n),
{
    assert forall|at: int| 0 <= at < n implies action_at(start, events.take(n), at) == action_at(
        start,
        events,
        at,
    ) by {
        assert(events.take(n).take(at) =~= events.take(at));
    }
    assert(actions(start, events.take(n)) =~= actions(start, events).take(n));
}

/// The start of a session is the session of the first requests.
proof fn lemma_session_prefix(requests: Seq<RequestAduView>, outcomes: Seq<OutcomeView>, n: int)
    requires
        requests.len() == outcomes.len(),
        0 <= n <= requests.len(),
    ensures
        session(requests, outcomes).take(3 * n) == session(requests.take(n), outcomes.take(n)),
{
    assert(session(requests, outcomes).take(3 * n) =~= session(
        requests.take(n),
        outcomes.take(n),
    ));
}

/// Replies go out in the order of their requests, none left out, none
/// twice. Let a server that waits for a request see `requests` one after the
/// other, and let the service answer them with any outcomes at all. Then the
/// replies that the server has sent are the replies to the requests that get
/// one, one for each and in the order of the requests. If every request got
/// its reply, the server waits for a request again; if not, the first answer
/// that does not fit its request has closed the connection, and nothing was
/// sent from then on.
pub proof fn theorem_session_replies(requests: Seq<RequestAduView>, outcomes: Seq<OutcomeView>)
    requires
        requests.len() == outcomes.len(),
    ensures
        sent(actions(ServerState::Receiving, session(requests, outcomes))) == replies(
            requests,
            outcomes,
        ),
        state_after(ServerState::Receiving, session(requests, outcomes)) == if answered(
            requests,
            outcomes,
        ) == requests.len() {
            ServerState::Receiving
        } else {
            ServerState::Closed
        },
    decreases requests.len(),
{
    let start = ServerState::Receiving;
    let events = session(requests, outcomes);
    let n = requests.len() as int;
    if n == 0 {
        assert(sent(actions(start, events)) =~= replies(requests, outcomes));
    } else {
        let m = n - 1;
        let before = requests.take(m);
        let given = outcomes.take(m);
        let a = answered(before, given) as int;
        theorem_session_replies(before, given);
        lemma_session_prefix(requests, outcomes, m);
        lemma_answered(before, given);
        assert forall|k: int| 0 <= k < a implies (#[trigger] answer_to(
            requests[k],
            outcomes[k],
        )) is Some by {
            assert(answer_to(before[k], given[k]) is Some);
        }
        if a < m {
            assert(before[a] == requests[a] && given[a] == outcomes[a]);
        }
        // the three steps of the last exchange
        assert(events[3 * m] == ServerEventView::Request(requests[m]));
        assert(events[3 * m + 1] == ServerEventView::Handled(outcomes[m]));
        assert(events[3 * m + 2] == ServerEventView::Sent);
        lemma_state_after_step(start, events, 3 * m);
        lemma_state_after_step(start, events, 3 * m + 1);
        lemma_state_after_step(start, events, 3 * m + 2);
        assert(events.take(3 * m + 3) =~= events);
        let all = actions(start, events);
        lemma_actions_of_prefix(start, events, 3 * m);
        let a3 = all;
        let a2 = a3.drop_last();
        let a1 = a2.drop_last();
        assert(a1.drop_last() =~= all.take(3 * m));
        assert(a3.last() == all[3 * m + 2]);
        assert(a2.last() == all[3 * m + 1]);
        assert(a1.last() == all[3 * m]);
        assert(sent(all.take(3 * m)) == replies(before, given));
        if a == m && answer_to(requests[m], outcomes[m]) is Some {
            let reply = answer_to(requests[m], outcomes[m])->0;
            lemma_answered_is(requests, outcomes, n);
            assert(all[3 * m + 1] == ServerActionView::Send(reply));
            assert(sent(a3) == sent(a2));
            assert(sent(a2) == sent(a1).push(reply));
            assert(sent(a1) == sent(a1.drop_last()));
            assert(replies(before, given).push(reply) =~= replies(requests, outcomes));
        } else {
            lemma_answered_is(requests, outcomes, a);
            assert(!(all[3 * m] is Send));
            assert(!(all[3 * m + 1] is Send));
            assert(!(all[3 * m + 2] is Send));
            assert(sent(a3) == sent(a2));
            assert(sent(a2) == sent(a1));
            assert(sent(a1) == sent(a1.drop_last()));
            assert(replies(before, given) =~= replies(requests, outcomes));
        }
    }
}

/// Where every answer fits, every request gets its reply. Let a server that
/// waits for a request see `requests` one after the other, and let the
/// service answer each of them with a refusal or with a response that fits
/// it. Then the server waits for a request again, and the replies that it
/// has sent are the replies to the requests, one for each, in the order of
/// the requests: each goes to the device address of its request and is about
/// the function code of its request.
pub proof fn theorem_replies_in_order(requests: Seq<RequestAduView>, outcomes: Seq<OutcomeView>)
    requires
        requests.len() == outcomes.len(),
        forall|k: int|
            0 <= k < requests.len() ==> (#[trigger] answer_to(requests[k], outcomes[k])) is Some,
    ensures
        state_after(ServerState::Receiving, session(requests, outcomes)) == ServerState::Receiving,
        sent(actions(ServerState::Receiving, session(requests, outcomes))) == Seq::new(
            requests.len(),
            |k: int| answer_to(requests[k], outcomes[k])->0,
        ),
        forall|k: int|
            0 <= k < requests.len() ==> {
                let reply = (#[trigger] answer_to(requests[k], outcomes[k]))->0;
                &&& reply.slave_id == requests[k].slave_id
                &&& reply_function(reply.reply) == requests[k].request.function()
            },
{
    theorem_session_replies(requests, outcomes);
    lemma_answered_is(requests, outcomes, requests.len() as int);
    assert(replies(requests, outcomes) =~= Seq::new(
        requests.len(),
        |k: int| answer_to(requests[k], outcomes[k])->0,
    ));
}

/// A service that refuses does not stop the server. Let a server that waits
/// for a request see `requests` one after the other, and let the service
/// refuse each of them. Then the server waits for a request again, and has
/// sent one exception reply for each request, in the order of the requests.
pub proof fn theorem_refusals_keep_serving(
    requests: Seq<RequestAduView>,
    refusals: Seq<Exception>,
)
    requires
        requests.len() == refusals.len(),
    ensures
        ({
            let outcomes = Seq::new(
                refusals.len(),
                |k: int| Err::<ResponseView, Exception>(refusals[k]),
            );
            &&& state_after(ServerState::Receiving, session(requests, outcomes))
                == ServerState::Receiving
            &&& sent(actions(ServerState::Receiving, session(requests, outcomes))) == Seq::new(
                requests.len(),
                |k: int|
                    ResponseAduView {
                        slave_id: requests[k].slave_id,
                        reply: Err(
                            ExceptionResponse {
                                function: requests[k].request.function(),
                                exception: refusals[k],
                            },
                        ),
                    },
            )
        }),
{
    let outcomes = Seq::new(refusals.len(), |k: int| Err::<ResponseView, Exception>(refusals[k]));
    theorem_replies_in_order(requests, outcomes);
    assert(Seq::new(requests.len(), |k: int| answer_to(requests[k], outcomes[k])->0) =~= Seq::new(
        requests.len(),
        |k: int|
            ResponseAduView {
                slave_id: requests[k].slave_id,
                reply: Err(
                    ExceptionResponse {
                        function: requests[k].request.function(),
                        exception: refusals[k],
                    },
                ),
            },
    ));
}

/// Once shutdown is asked for, nothing goes out. Whatever a connection has
/// seen before and sees after, from the event that asks for shutdown on it
/// is draining or closed, and no event leads to a call of the service or to
/// a reply.
pub proof fn theorem_nothing_sent_after_shutdown(
    start: ServerState,
    events: Seq<ServerEventView>,
    asked: int,
    later: int,
)
    requires
        0 <= asked <= later < events.len(),
        events[asked] == ServerEventView::Shutdown,
    ensures
        !(action_at(start, events, later) is Send),
        !(action_at(start, events, later) is Call),
        !(action_at(start, events, later) is Receive),
        state_after(start, events.take(later + 1)) is Draining || state_after(
            start,
            events.take(later + 1),
        ) is Closed,
    decreases later - asked,
{
    lemma_state_after_step(start, events, later);
    if later > asked {
        theorem_nothing_sent_after_shutdown(start, events, asked, later - 1);
    }
}

/// A reply answers the request that was handed to the service last. Let a
/// connection that starts idle send a reply at some event of a run. Then
/// that event is an answer of the service, an earlier event is a request
/// that was handed to the service, the reply is the one that goes back for
/// that request and that answer, and nothing was done in between. The index
/// of the request is returned.
pub proof fn theorem_reply_answers_last_request(events: Seq<ServerEventView>, at: int) -> (asked:
    int)
    requires
        0 <= at < events.len(),
        action_at(ServerState::Idle, events, at) is Send,
    ensures
        0 <= asked < at,
        events[asked] is Request,
        events[at] is Handled,
        action_at(ServerState::Idle, events, asked) == ServerActionView::Call(
            events[asked]->Request_0.request,
        ),
        answer_to(events[asked]->Request_0, events[at]->Handled_0) == Some(
            action_at(ServerState::Idle, events, at)->Send_0,
        ),
        forall|between: int|
            asked < between < at ==> action_at(ServerState::Idle, events, between)
                == ServerActionView::Ignore,
{
    lemma_request_in_hand(events, at)
}

/// While a connection that started idle handles a request, an earlier event
/// is that request, it was handed to the service, and nothing was done
/// since.
proof fn lemma_request_in_hand(events: Seq<ServerEventView>, at: int) -> (asked: int)
    requires
        0 <= at <= events.len(),
        state_after(ServerState::Idle, events.take(at)) is Handling,
    ensures
        0 <= asked < at,
        events[asked] is Request,
        state_after(ServerState::Idle, events.take(at)) == ServerState::Handling(
            events[asked]->Request_0.slave_id,
            events[asked]->Request_0.request.function(),
        ),
        action_at(ServerState::Idle, events, asked) == ServerActionView::Call(
            events[asked]->Request_0.request,
        ),
        forall|between: int|
            asked < between < at ==> action_at(ServerState::Idle, events, between)
                == ServerActionView::Ignore,
    decreases at,
{
    if at == 0 {
        assert(events.take(0) =~= Seq::<ServerEventView>::empty());
        0
    } else {
        lemma_state_after_step(ServerState::Idle, events, at - 1);
        let before = state_after(ServerState::Idle, events.take(at - 1));
        if before is Handling {
            let asked = lemma_request_in_hand(events, at - 1);
            asked
        } else {
            at - 1
        }
    }
}

/// No reply is written in part. A connection is told to abandon what is
/// under way only while it receives or handles; while it sends, a shutdown
/// has it let the write finish, and whatever is reported next closes it.
pub proof fn theorem_write_never_abandoned(state: ServerState, event: ServerEventView)
    ensures
        next(state, event).1 is Abandon ==> state is Receiving || state is Handling,
        next(ServerState::Sending, ServerEventView::Shutdown) == (
            ServerState::Draining,
            ServerActionView::Finish,
        ),
        next(ServerState::Draining, event) == (
            ServerState::Closed,
            ServerActionView::Stop(Stop::Shutdown),
        ),
{
}

} // verus!
