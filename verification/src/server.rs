//! The server side of a connection as a state machine. The machine takes no
//! step of its own: whoever owns the transport tells it what happened (a
//! request arrived, the service answered, the reply was written, the stream
//! ended, shutdown was asked for) and is told what to do next.
//!
//! A connection is idle until it is started, then serves, and ends closed.
//! While it serves it goes round three steps: receiving a request, handling
//! it, sending the reply. A shutdown leads through draining to closed: a
//! read or a call that is under way is abandoned, a write that is under way
//! is let finish, so that no reply is ever written in part.

use vstd::prelude::*;
use crate::format::FrameError;
use crate::frame::{
    Exception, ExceptionResponse, FunctionCode, Header, Request, RequestAdu, RequestAduView,
    RequestView, Response, ResponseAdu, ResponseAduView, ResponsePdu, ResponseView, SlaveId,
};
use crate::service::Service;

verus! {

/// Where a connection stands.
#[derive(Clone, Copy, Debug, PartialEq, Eq, Structural)]
pub enum ServerState {
    /// Not started yet.
    Idle,
    /// Serving: waiting for the next request.
    Receiving,
    /// Serving: the service is at work on a request from this device address
    /// with this function code.
    Handling(SlaveId, FunctionCode),
    /// Serving: the reply is being written.
    Sending,
    /// Shutdown was asked for; what was under way is being abandoned, or,
    /// if it is a write, let finish.
    Draining,
    /// Over.
    Closed,
}

impl ServerState {
    /// Whether the connection serves: it is at one of the three steps of an
    /// exchange.
    pub open spec fn spec_is_serving(self) -> bool {
        self is Receiving || self is Handling || self is Sending
    }

    /// Whether the connection serves: it is at one of the three steps of an
    /// exchange.
    #[verifier::when_used_as_spec(spec_is_serving)]
    pub fn is_serving(self) -> (serving: bool)
        ensures
            serving == self.spec_is_serving(),
    {
        match self {
            ServerState::Receiving | ServerState::Handling(..) | ServerState::Sending => true,
            _ => false,
        }
    }
}

/// Why a connection failed.
#[derive(Clone, Copy, Debug, PartialEq, Eq, Structural)]
pub enum ServerError {
    /// Reading from or writing to the transport failed.
    Transport,
    /// What arrived was no frame.
    Frame(FrameError),
    /// The service answered with a response for another function code than
    /// that of the request, or with one that breaks a limit of the protocol.
    Service,
}

/// How a connection ended.
#[derive(Clone, Copy, Debug, PartialEq, Eq, Structural)]
pub enum Stop {
    /// The peer closed the stream.
    EndOfStream,
    /// Shutdown was asked for.
    Shutdown,
    /// The connection failed.
    Failed(ServerError),
}

/// What the outcome of a call to a service is, as a mathematical value.
pub type OutcomeView = Result<ResponseView, Exception>;

/// The mathematical value of the outcome of a call to a service.
pub open spec fn outcome_view(outcome: Result<Response, Exception>) -> OutcomeView {
    match outcome {
        Ok(response) => Ok(response@),
        Err(exception) => Err(exception),
    }
}

/// What can happen on a connection.
#[derive(Debug, PartialEq, Eq)]
pub enum ServerEvent {
    /// The transport is ready and the service is made.
    Started,
    /// A request was decoded.
    Request(RequestAdu),
    /// Bytes were thrown away because they held no frame.
    Malformed(FrameError),
    /// The peer closed the stream.
    EndOfStream,
    /// Reading from or writing to the transport failed.
    TransportFailed,
    /// The service has answered.
    Handled(Result<Response, Exception>),
    /// The reply is written.
    Sent,
    /// Shutdown is asked for.
    Shutdown,
    /// What was under way is abandoned.
    Abandoned,
}

/// An event as a mathematical value.
pub enum ServerEventView {
    Started,
    Request(RequestAduView),
    Malformed(FrameError),
    EndOfStream,
    TransportFailed,
    Handled(OutcomeView),
    Sent,
    Shutdown,
    Abandoned,
}

impl View for ServerEvent {
    type V = ServerEventView;

    open spec fn view(&self) -> ServerEventView {
        match self {
            ServerEvent::Started => ServerEventView::Started,
            ServerEvent::Request(adu) => ServerEventView::Request(adu@),
            ServerEvent::Malformed(error) => ServerEventView::Malformed(*error),
            ServerEvent::EndOfStream => ServerEventView::EndOfStream,
            ServerEvent::TransportFailed => ServerEventView::TransportFailed,
            ServerEvent::Handled(outcome) => ServerEventView::Handled(outcome_view(*outcome)),
            ServerEvent::Sent => ServerEventView::Sent,
            ServerEvent::Shutdown => ServerEventView::Shutdown,
            ServerEvent::Abandoned => ServerEventView::Abandoned,
        }
    }
}

/// What is to be done next on a connection.
#[derive(Debug, PartialEq, Eq)]
pub enum ServerAction {
    /// Wait for the next request.
    Receive,
    /// Hand this request to the service.
    Call(Request),
    /// Write this reply.
    Send(ResponseAdu),
    /// Abandon the read or the call that is under way, then report that it
    /// is abandoned.
    Abandon,
    /// Let the write that is under way finish, then report how it ended.
    Finish,
    /// Stop: the connection is over.
    Stop(Stop),
    /// Nothing: the event has no meaning where the connection stands.
    Ignore,
}

/// An action as a mathematical value.
pub enum ServerActionView {
    Receive,
    Call(RequestView),
    Send(ResponseAduView),
    Abandon,
    Finish,
    Stop(Stop),
    Ignore,
}

impl View for ServerAction {
    type V = ServerActionView;

    open spec fn view(&self) -> ServerActionView {
        match self {
            ServerAction::Receive => ServerActionView::Receive,
            ServerAction::Call(request) => ServerActionView::Call(request@),
            ServerAction::Send(adu) => ServerActionView::Send(adu@),
            ServerAction::Abandon => ServerActionView::Abandon,
            ServerAction::Finish => ServerActionView::Finish,
            ServerAction::Stop(stop) => ServerActionView::Stop(*stop),
            ServerAction::Ignore => ServerActionView::Ignore,
        }
    }
}

/// The reply that goes back for a request from `slave_id` with function code
/// `function`, once the service has answered. A refusal becomes an exception
/// reply for that function code. A response goes back as it is if it is one
/// for that function code and respects the limits of the protocol; any other
/// response is a fault of the service, and no reply goes back.
pub open spec fn answer(slave_id: SlaveId, function: FunctionCode, outcome: OutcomeView) -> Option<
    ResponseAduView,
> {
    match outcome {
        Ok(response) => if response.function() == function && response.wf() {
            Some(ResponseAduView { slave_id, reply: Ok(response) })
        } else {
            None
        },
        Err(exception) => Some(
            ResponseAduView { slave_id, reply: Err(ExceptionResponse { function, exception }) },
        ),
    }
}

/// The state that follows and the action to take when `event` happens in
/// `state`.
///
/// A closed connection ignores everything. A draining connection closes on
/// whatever comes next: what was under way is over, one way or another.
/// Shutdown closes an idle connection and sets a serving one draining; a
/// read or a call that is under way is then to be abandoned, a write is to be
/// let finish. A serving connection goes round receiving, handling and
/// sending. Bytes that are no frame, whatever is wrong with them, a failing
/// transport and a fault of the service close it with an error, and the end
/// of the stream closes it without. An event that has no meaning where the
/// connection stands is ignored.
pub open spec fn next(state: ServerState, event: ServerEventView) -> (
    ServerState,
    ServerActionView,
) {
    match (state, event) {
        (ServerState::Closed, _) => (ServerState::Closed, ServerActionView::Ignore),
        (ServerState::Draining, _) => (
            ServerState::Closed,
            ServerActionView::Stop(Stop::Shutdown),
        ),
        (ServerState::Idle, ServerEventView::Shutdown) => (
            ServerState::Closed,
            ServerActionView::Stop(Stop::Shutdown),
        ),
        (ServerState::Sending, ServerEventView::Shutdown) => (
            ServerState::Draining,
            ServerActionView::Finish,
        ),
        (_, ServerEventView::Shutdown) => (ServerState::Draining, ServerActionView::Abandon),
        (ServerState::Idle, ServerEventView::Started) => (
            ServerState::Receiving,
            ServerActionView::Receive,
        ),
        (ServerState::Receiving, ServerEventView::Request(adu)) => (
            ServerState::Handling(adu.slave_id, adu.request.function()),
            ServerActionView::Call(adu.request),
        ),
        (ServerState::Receiving, ServerEventView::Malformed(error)) => (
            ServerState::Closed,
            ServerActionView::Stop(Stop::Failed(ServerError::Frame(error))),
        ),
        (ServerState::Receiving, ServerEventView::EndOfStream) => (
            ServerState::Closed,
            ServerActionView::Stop(Stop::EndOfStream),
        ),
        (ServerState::Receiving, ServerEventView::TransportFailed) => (
            ServerState::Closed,
            ServerActionView::Stop(Stop::Failed(ServerError::Transport)),
        ),
        (ServerState::Handling(slave_id, function), ServerEventView::Handled(outcome)) => {
            match answer(slave_id, function, outcome) {
                Some(adu) => (ServerState::Sending, ServerActionView::Send(adu)),
                None => (
                    ServerState::Closed,
                    ServerActionView::Stop(Stop::Failed(ServerError::Service)),
                ),
            }
        },
        (ServerState::Sending, ServerEventView::Sent) => (
            ServerState::Receiving,
            ServerActionView::Receive,
        ),
        (ServerState::Sending, ServerEventView::TransportFailed) => (
            ServerState::Closed,
            ServerActionView::Stop(Stop::Failed(ServerError::Transport)),
        ),
        (state, _) => (state, ServerActionView::Ignore),
    }
}

/// Makes the reply that goes back for a request with header `hdr` and
/// function code `function`, once the service has answered; `None` where the
/// answer is a fault of the service.
pub fn respond(hdr: Header, function: FunctionCode, outcome: Result<Response, Exception>) -> (reply:
    Option<ResponseAdu>)
    ensures
        match reply {
            Some(adu) => answer(hdr@, function, outcome_view(outcome)) == Some(adu@),
            None => answer(hdr@, function, outcome_view(outcome)) is None,
        },
{
    match outcome {
        Ok(response) => {
            if response.function() == function {
                match ResponsePdu::new(Ok(response)) {
                    Some(pdu) => Some(ResponseAdu { hdr, pdu }),
                    None => None,
                }
            } else {
                None
            }
        },
        Err(exception) => Some(ResponseAdu { hdr, pdu: ResponsePdu::exception(function, exception) }),
    }
}

/// Whether `reply` is what goes back for `request` once the service has
/// answered with `outcome`.
pub open spec fn replies_to(
    reply: Option<ResponseAdu>,
    request: RequestAduView,
    outcome: OutcomeView,
) -> bool {
    match reply {
        Some(adu) => answer(request.slave_id, request.request.function(), outcome) == Some(adu@),
        None => answer(request.slave_id, request.request.function(), outcome) is None,
    }
}

/// Has a service answer a request and makes the reply that goes back; `None`
/// where the answer is a fault of the service. Whatever the service answers,
/// what is returned is what goes back for its answer.
pub fn serve_request<S: Service>(service: &S, request: RequestAdu) -> (reply: Option<ResponseAdu>)
    ensures
        exists|outcome: OutcomeView| replies_to(reply, request@, outcome),
{
    let hdr = request.hdr;
    let asked = request.pdu.into_request();
    let function = asked.function();
    let outcome = service.call(asked);
    let ghost given = outcome_view(outcome);
    let reply = respond(hdr, function, outcome);
    assert(replies_to(reply, request@, given));
    reply
}

/// The server side of one connection.
#[derive(Debug)]
pub struct Server {
    state: ServerState,
    hdr: Header,
}

impl Server {
    #[verifier::type_invariant]
    spec fn inv(self) -> bool {
        self.state matches ServerState::Handling(slave_id, _) ==> self.hdr@ == slave_id
    }

    /// Where the connection stands.
    pub closed spec fn spec_state(&self) -> ServerState {
        self.state
    }

    /// A connection that is not started yet.
    pub fn new() -> (server: Server)
        ensures
            server.spec_state() == ServerState::Idle,
    {
        Server { state: ServerState::Idle, hdr: Header::broadcast() }
    }

    /// Where the connection stands.
    #[verifier::when_used_as_spec(spec_state)]
    pub fn state(&self) -> (state: ServerState)
        ensures
            state == self.spec_state(),
    {
        self.state
    }

    /// Takes in an event: moves to the state that follows and tells what to
    /// do next.
    pub fn step(&mut self, event: ServerEvent) -> (action: ServerAction)
        ensures
            (final(self).spec_state(), action@) == next(old(self).spec_state(), event@),
    {
        proof {
            use_type_invariant(&*self);
        }
        let state = self.state;
        let hdr = self.hdr;
        let (state, hdr, action) = match (state, event) {
            (ServerState::Closed, _) => (ServerState::Closed, hdr, ServerAction::Ignore),
            (ServerState::Draining, _) => (
                ServerState::Closed,
                hdr,
                ServerAction::Stop(Stop::Shutdown),
            ),
            (ServerState::Idle, ServerEvent::Shutdown) => (
                ServerState::Closed,
                hdr,
                ServerAction::Stop(Stop::Shutdown),
            ),
            (ServerState::Sending, ServerEvent::Shutdown) => (
                ServerState::Draining,
                hdr,
                ServerAction::Finish,
            ),
            (_, ServerEvent::Shutdown) => (ServerState::Draining, hdr, ServerAction::Abandon),
            (ServerState::Idle, ServerEvent::Started) => (
                ServerState::Receiving,
                hdr,
                ServerAction::Receive,
            ),
            (ServerState::Receiving, ServerEvent::Request(adu)) => {
                let from = adu.hdr;
                let request = adu.pdu.into_request();
                (
                    ServerState::Handling(from.slave_id(), request.function()),
                    from,
                    ServerAction::Call(request),
                )
            },
            (ServerState::Receiving, ServerEvent::Malformed(error)) => (
                ServerState::Closed,
                hdr,
                ServerAction::Stop(Stop::Failed(ServerError::Frame(error))),
            ),
            (ServerState::Receiving, ServerEvent::EndOfStream) => (
                ServerState::Closed,
                hdr,
                ServerAction::Stop(Stop::EndOfStream),
            ),
            (ServerState::Receiving, ServerEvent::TransportFailed) => (
                ServerState::Closed,
                hdr,
                ServerAction::Stop(Stop::Failed(ServerError::Transport)),
            ),
            (ServerState::Handling(_, function), ServerEvent::Handled(outcome)) => {
                match respond(hdr, function, outcome) {
                    Some(adu) => (ServerState::Sending, hdr, ServerAction::Send(adu)),
                    None => (
                        ServerState::Closed,
                        hdr,
                        ServerAction::Stop(Stop::Failed(ServerError::Service)),
                    ),
                }
            },
            (ServerState::Sending, ServerEvent::Sent) => (
                ServerState::Receiving,
                hdr,
                ServerAction::Receive,
            ),
            (ServerState::Sending, ServerEvent::TransportFailed) => (
                ServerState::Closed,
                hdr,
                ServerAction::Stop(Stop::Failed(ServerError::Transport)),
            ),
            (state, _) => (state, hdr, ServerAction::Ignore),
        };
        *self = Server { state, hdr };
        action
    }
}

} // verus!
