//! Serving a whole stream of bytes that is at hand: requests are decoded off
//! the stream one after the other, each is handed to the service, and the
//! frames of the replies are written out in the same order, until the stream
//! ends or the connection fails.

use vstd::pervasive::unreached;
use vstd::prelude::*;
use vstd::slice::slice_subrange;
use crate::codec::{decode_request_eof, encode_response};
use crate::format::{
    Decoded, FrameError, request_at_end, request_extent, request_frame, response_frame, sealed,
};
use crate::frame::{RequestAduView, ResponseAduView};
use crate::server::{
    OutcomeView, Server, ServerAction, ServerError, ServerEvent, ServerState, Stop, outcome_view,
};
use crate::service::{NewService, Service};
use crate::theorems::{
    theorem_decoded_request_checked, theorem_request_corruption_detected,
    theorem_request_round_trip,
};
use crate::traces::{answer_to, answered, lemma_answered, replies};

verus! {

/// What is written so far, followed by what is written from here on.
pub open spec fn after(written: Seq<u8>, rest: (Seq<u8>, Stop)) -> (Seq<u8>, Stop) {
    (written + rest.0, rest.1)
}

/// What a server writes and how it stops when the whole stream holds `input`
/// and the service answers its calls with `outcomes`, one after the other.
///
/// The start of the stream is decoded, in the knowledge that no more bytes
/// will come. With no bytes left the stream has ended. Bytes that are no
/// frame fail the connection, whatever is wrong with them: a bad checksum, a
/// function code that is not known, a payload of the wrong shape, or a frame
/// that the end of the stream cuts short. A request is handed to the
/// service. If the outcome is a fault of the service, the connection fails.
/// Otherwise the frame of the reply is written and the rest of the stream is
/// served with the rest of the outcomes. Where the outcomes run out before
/// the requests, serving is cut short as by a shutdown while the next
/// request is in flight.
pub open spec fn served(input: Seq<u8>, outcomes: Seq<OutcomeView>) -> (Seq<u8>, Stop)
    decreases input.len(),
{
    match request_at_end(input) {
        Decoded::Incomplete => (Seq::empty(), Stop::EndOfStream),
        Decoded::Malformed(error, _) => (Seq::empty(), Stop::Failed(ServerError::Frame(error))),
        Decoded::Frame(request, taken) => if outcomes.len() == 0 {
            (Seq::empty(), Stop::Shutdown)
        } else {
            match answer_to(request, outcomes[0]) {
                None => (Seq::empty(), Stop::Failed(ServerError::Service)),
                Some(reply) => after(
                    response_frame(reply),
                    served(input.skip(taken as int), outcomes.skip(1)),
                ),
            }
        },
    }
}

/// Serves the stream `input` to its end: runs a connection over it that
/// decodes each request, hands it to `service`, and writes the frame of the
/// reply. Returns what was written and how serving stopped.
///
/// Whatever the service answers, what is returned is what a server writes
/// for the outcomes that the service gave, and serving never stops as by a
/// shutdown: it goes on until the stream has ended or the connection has
/// failed, so that no request is left without its call.
pub fn process<S: Service>(service: &S, input: &[u8]) -> (result: (Vec<u8>, Stop))
    ensures
        exists|outcomes: Seq<OutcomeView>| served(input@, outcomes) == (result.0@, result.1),
        !(result.1 is Shutdown),
{
    let mut connection = Server::new();
    let _ = connection.step(ServerEvent::Started);
    let mut out: Vec<u8> = Vec::new();
    let mut at: usize = 0;
    let ghost mut done: Seq<OutcomeView> = Seq::empty();
    proof {
        assert forall|rest: Seq<OutcomeView>| #[trigger]
            served(input@, done + rest) == after(out@, served(input@.skip(at as int), rest)) by {
            assert(done + rest =~= rest);
            assert(input@.skip(0) =~= input@);
            assert(out@ + served(input@, rest).0 =~= served(input@, rest).0);
        }
    }
    loop
        invariant
            at <= input.len(),
            connection.spec_state() == ServerState::Receiving,
            forall|rest: Seq<OutcomeView>| #[trigger]
                served(input@, done + rest) == after(out@, served(input@.skip(at as int), rest)),
        decreases input.len() - at,
    {
        let ghost here = input@.skip(at as int);
        let ghost none = Seq::<OutcomeView>::empty();
        proof {
            theorem_decoded_request_checked(here);
            assert(served(input@, done + none) == after(out@, served(here, none)));
            assert(done + none =~= done);
            assert(out@ + Seq::<u8>::empty() =~= out@);
        }
        let (event, taken): (ServerEvent, usize) = match decode_request_eof(
            slice_subrange(input, at, input.len()),
        ) {
            Decoded::Incomplete => (ServerEvent::EndOfStream, 0),
            Decoded::Frame(request, taken) => (ServerEvent::Request(request), taken),
            Decoded::Malformed(error, taken) => (ServerEvent::Malformed(error), taken),
        };
        match connection.step(event) {
            ServerAction::Call(call) => {
                let outcome = service.call(call);
                let ghost given = outcome_view(outcome);
                let ghost last = seq![given];
                proof {
                    assert(here.skip(taken as int) =~= input@.skip(at + taken));
                    assert(served(input@, done + last) == after(out@, served(here, last)));
                }
                match connection.step(ServerEvent::Handled(outcome)) {
                    ServerAction::Send(reply) => {
                        let bytes = encode_response(&reply);
                        let ghost before = out@;
                        let mut i: usize = 0;
                        while i < bytes.len()
                            invariant
                                i <= bytes.len(),
                                out@ == before + bytes@.take(i as int),
                            decreases bytes.len() - i,
                        {
                            out.push(bytes[i]);
                            assert(out@ =~= before + bytes@.take(i + 1));
                            i = i + 1;
                        }
                        let _ = connection.step(ServerEvent::Sent);
                        proof {
                            assert(bytes@.take(i as int) =~= bytes@);
                            assert forall|rest: Seq<OutcomeView>| #[trigger]
                                served(input@, done.push(given) + rest) == after(
                                    out@,
                                    served(input@.skip(at + taken), rest),
                                ) by {
                                let more = seq![given] + rest;
                                assert(done.push(given) + rest =~= done + more);
                                assert(served(input@, done + more) == after(
                                    before,
                                    served(here, more),
                                ));
                                assert(more.skip(1) =~= rest);
                                assert(served(here, more) == after(
                                    bytes@,
                                    served(here.skip(taken as int), rest),
                                ));
                                assert(before + (bytes@ + served(
                                    here.skip(taken as int),
                                    rest,
                                ).0) =~= out@ + served(here.skip(taken as int), rest).0);
                            }
                            done = done.push(given);
                        }
                        at = at + taken;
                    },
                    ServerAction::Stop(stop) => {
                        return (out, stop);
                    },
                    _ => {
                        return unreached();
                    },
                }
            },
            ServerAction::Stop(stop) => {
                return (out, stop);
            },
            _ => {
                return unreached();
            },
        }
    }
}

/// Serves the stream of one connection with no shutdown in sight: has the
/// factory make a service for the connection and serves `input` to its end
/// with it, as `process` does. It stops only because the stream has ended or
/// the connection has failed.
pub fn serve<N: NewService>(new_service: &N, input: &[u8]) -> (result: (Vec<u8>, Stop))
    ensures
        exists|outcomes: Seq<OutcomeView>| served(input@, outcomes) == (result.0@, result.1),
        !(result.1 is Shutdown),
{
    let service = new_service.new_service();
    process(&service, input)
}

/// The stream that holds the frames of `requests`, one after the other.
pub open spec fn request_stream(requests: Seq<RequestAduView>) -> Seq<u8>
    decreases requests.len(),
{
    if requests.len() == 0 {
        Seq::empty()
    } else {
        request_frame(requests[0]) + request_stream(requests.skip(1))
    }
}

/// The stream that holds the frames of `replies`, one after the other.
pub open spec fn response_stream(replies: Seq<ResponseAduView>) -> Seq<u8>
    decreases replies.len(),
{
    if replies.len() == 0 {
        Seq::empty()
    } else {
        response_frame(replies[0]) + response_stream(replies.skip(1))
    }
}

/// How serving a stream of requests stops: because the stream has ended if
/// every request got its reply, as by a shutdown if the outcomes ran out
/// first, and with a fault of the service at the first answer that does not
/// fit its request.
pub open spec fn stop_after(requests: Seq<RequestAduView>, outcomes: Seq<OutcomeView>) -> Stop {
    let n = answered(requests, outcomes);
    if n == requests.len() {
        Stop::EndOfStream
    } else if n == outcomes.len() {
        Stop::Shutdown
    } else {
        Stop::Failed(ServerError::Service)
    }
}

/// What a server writes for a stream that starts with the frame of a
/// request, for each way the service can answer it.
proof fn lemma_served_first(
    request: RequestAduView,
    rest: Seq<u8>,
    outcomes: Seq<OutcomeView>,
)
    requires
        request.wf(),
    ensures
        outcomes.len() == 0 ==> served(request_frame(request) + rest, outcomes) == (
            Seq::<u8>::empty(),
            Stop::Shutdown,
        ),
        outcomes.len() > 0 && answer_to(request, outcomes[0]) is None ==> served(
            request_frame(request) + rest,
            outcomes,
        ) == (Seq::<u8>::empty(), Stop::Failed(ServerError::Service)),
        outcomes.len() > 0 && answer_to(request, outcomes[0]) is Some ==> served(
            request_frame(request) + rest,
            outcomes,
        ) == after(
            response_frame(answer_to(request, outcomes[0])->0),
            served(rest, outcomes.skip(1)),
        ),
{
    let first = request_frame(request);
    let stream = first + rest;
    assert(first.is_prefix_of(stream)) by {
        assert(stream.subrange(0, first.len() as int) =~= first);
    }
    theorem_request_round_trip(request, stream);
    assert(stream.skip(first.len() as int) =~= rest);
}

/// On the wire, replies go out in the order of their requests, none left
/// out, none twice. Let a stream hold the frames of requests that respect
/// the limits of the protocol, and let the service answer them with any
/// outcomes at all. Then what a server writes is the frames of the replies
/// to the requests that get one, one for each and in the order of the
/// requests, and nothing else. If every request got its reply, it stops
/// because the stream has ended. If the outcomes ran out first, it stops as
/// by a shutdown while the next request is in flight, and has written
/// nothing for that request. Otherwise it stops with a fault of the service
/// at the first answer that does not fit its request.
pub proof fn theorem_stream_served_in_order(
    requests: Seq<RequestAduView>,
    outcomes: Seq<OutcomeView>,
)
    requires
        forall|k: int| 0 <= k < requests.len() ==> (#[trigger] requests[k]).wf(),
    ensures
        served(request_stream(requests), outcomes) == (
            response_stream(replies(requests, outcomes)),
            stop_after(requests, outcomes),
        ),
    decreases requests.len(),
{
    let sent = replies(requests, outcomes);
    if requests.len() == 0 {
        assert(response_stream(sent) =~= Seq::<u8>::empty());
    } else {
        let later = requests.skip(1);
        let answers = outcomes.skip(1);
        assert(requests[0].wf());
        lemma_served_first(requests[0], request_stream(later), outcomes);
        if outcomes.len() > 0 && answer_to(requests[0], outcomes[0]) is Some {
            assert forall|k: int| 0 <= k < later.len() implies (#[trigger] later[k]).wf() by {
                assert(requests[k + 1].wf());
            }
            theorem_stream_served_in_order(later, answers);
            lemma_answered(later, answers);
            assert(sent.skip(1) =~= replies(later, answers));
            assert(sent[0] == answer_to(requests[0], outcomes[0])->0);
        } else {
            assert(response_stream(sent) =~= Seq::<u8>::empty());
        }
    }
}

/// Where every answer fits, every request gets its reply: N requests, N
/// replies, in the order of the requests. Let a stream hold the frames of
/// requests that respect the limits of the protocol, and let the service
/// answer each of them with a refusal or with a response that fits it. Then
/// what a server writes is the frames of the replies, one for each request,
/// and it stops because the stream has ended.
pub proof fn theorem_every_request_answered(
    requests: Seq<RequestAduView>,
    outcomes: Seq<OutcomeView>,
)
    requires
        requests.len() == outcomes.len(),
        forall|k: int| 0 <= k < requests.len() ==> (#[trigger] requests[k]).wf(),
        forall|k: int|
            0 <= k < requests.len() ==> (#[trigger] answer_to(requests[k], outcomes[k])) is Some,
    ensures
        served(request_stream(requests), outcomes) == (
            response_stream(
                Seq::new(requests.len(), |k: int| answer_to(requests[k], outcomes[k])->0),
            ),
            Stop::EndOfStream,
        ),
{
    theorem_stream_served_in_order(requests, outcomes);
    lemma_answered(requests, outcomes);
    let n = answered(requests, outcomes) as int;
    if n < requests.len() {
        assert(answer_to(requests[n], outcomes[n]) is Some);
    }
    assert(replies(requests, outcomes) =~= Seq::new(
        requests.len(),
        |k: int| answer_to(requests[k], outcomes[k])->0,
    ));
}

/// A frame with a changed byte fails the stream. Let one byte of a request
/// frame, before its checksum, be changed, whichever byte it is, and let no
/// shorter run of the changed bytes happen to carry its own checksum. Then a
/// server that is given the changed frame as its whole stream writes
/// nothing and stops with an error about the frame, whatever the service
/// would answer: no request with a wrong value gets through to it. The error
/// is a checksum error wherever the frame still ends where it did.
pub proof fn theorem_changed_frame_fails(
    adu: RequestAduView,
    at: int,
    byte: u8,
    outcomes: Seq<OutcomeView>,
)
    requires
        adu.wf(),
        0 <= at < request_frame(adu).len() - 2,
        byte != request_frame(adu)[at],
        forall|n: int|
            4 <= n < request_frame(adu).len() ==> !sealed(
                #[trigger] request_frame(adu).update(at, byte).take(n),
            ),
    ensures
        served(request_frame(adu).update(at, byte), outcomes).0 == Seq::<u8>::empty(),
        served(request_frame(adu).update(at, byte), outcomes).1 matches Stop::Failed(
            ServerError::Frame(_),
        ),
        request_extent(request_frame(adu).update(at, byte)) == request_extent(request_frame(adu))
            ==> served(request_frame(adu).update(at, byte), outcomes).1 == Stop::Failed(
            ServerError::Frame(FrameError::Checksum),
        ),
{
    let changed = request_frame(adu).update(at, byte);
    theorem_request_round_trip(adu, request_frame(adu));
    theorem_request_corruption_detected(adu, at, byte);
    theorem_decoded_request_checked(changed);
}

} // verus!
