//! The client side of a connection as a state machine. A serial line carries
//! one exchange at a time and its frames carry no number that would tell
//! which request a reply belongs to, so a client has at most one request in
//! flight: it takes no new request until the one before is resolved, and it
//! matches every reply against the request that is in flight.

use vstd::prelude::*;
use crate::codec::coil_to_word;
use crate::format::{FrameError, coil_word};
use crate::frame::{
    Exception, FunctionCode, Request, RequestAdu, RequestAduView, RequestView, Response,
    ResponseAdu, ResponseAduView, ResponseView, SlaveId, reply_function,
};
use crate::wire::coil_bytes;

verus! {

/// What a client keeps of the request in flight to match the reply against:
/// the device address, the function code, and the two words that follow the
/// function code in the request (an address, then a quantity, or the value
/// for a single coil or register).
#[derive(Clone, Copy, Debug, PartialEq, Eq, Structural)]
pub struct Outstanding {
    pub slave_id: SlaveId,
    pub function: FunctionCode,
    pub first: u16,
    pub second: u16,
}

/// Why a call of a client did not come to a response.
#[derive(Clone, Copy, Debug, PartialEq, Eq, Structural)]
pub enum ClientError {
    /// Another request is in flight.
    Busy,
    /// The connection is closed.
    Closed,
    /// The device refused the request.
    Exception(Exception),
    /// The reply is none to the request in flight: it comes from another
    /// device, is about another function code, or does not hold what was
    /// asked for.
    UnexpectedReply,
    /// What came back was no frame.
    Frame(FrameError),
    /// No reply came in time.
    TimedOut,
    /// Reading from or writing to the transport failed.
    Transport,
}

/// The two words that follow the function code in a request.
pub open spec fn request_words(request: RequestView) -> (u16, u16) {
    match request {
        RequestView::ReadCoils(address, quantity) => (address, quantity),
        RequestView::ReadDiscreteInputs(address, quantity) => (address, quantity),
        RequestView::WriteSingleCoil(address, on) => (address, coil_word(on)),
        RequestView::WriteMultipleCoils(address, coils) => (address, coils.len() as u16),
        RequestView::ReadInputRegisters(address, quantity) => (address, quantity),
        RequestView::ReadHoldingRegisters(address, quantity) => (address, quantity),
        RequestView::WriteSingleRegister(address, word) => (address, word),
        RequestView::WriteMultipleRegisters(address, words) => (address, words.len() as u16),
        RequestView::ReadWriteMultipleRegisters(address, quantity, _, _) => (address, quantity),
    }
}

/// What a client keeps of a request.
pub open spec fn outstanding(adu: RequestAduView) -> Outstanding {
    Outstanding {
        slave_id: adu.slave_id,
        function: adu.request.function(),
        first: request_words(adu.request).0,
        second: request_words(adu.request).1,
    }
}

/// Whether a response holds what a request asked for: as many coils or
/// registers as were to be read, or the address and the value or quantity
/// that were to be written.
pub open spec fn fulfils(response: ResponseView, request: RequestView) -> bool {
    match (request, response) {
        (RequestView::ReadCoils(_, quantity), ResponseView::ReadCoils(coils)) => coils.len()
            == quantity,
        (
            RequestView::ReadDiscreteInputs(_, quantity),
            ResponseView::ReadDiscreteInputs(coils),
        ) => coils.len() == quantity,
        (
            RequestView::ReadInputRegisters(_, quantity),
            ResponseView::ReadInputRegisters(words),
        ) => words.len() == quantity,
        (
            RequestView::ReadHoldingRegisters(_, quantity),
            ResponseView::ReadHoldingRegisters(words),
        ) => words.len() == quantity,
        (
            RequestView::ReadWriteMultipleRegisters(_, quantity, _, _),
            ResponseView::ReadWriteMultipleRegisters(words),
        ) => words.len() == quantity,
        (RequestView::WriteSingleCoil(address, on), ResponseView::WriteSingleCoil(at, state)) => {
            at == address && state == on
        },
        (
            RequestView::WriteSingleRegister(address, word),
            ResponseView::WriteSingleRegister(at, value),
        ) => at == address && value == word,
        (
            RequestView::WriteMultipleCoils(address, coils),
            ResponseView::WriteMultipleCoils(at, quantity),
        ) => at == address && quantity == coils.len(),
        (
            RequestView::WriteMultipleRegisters(address, words),
            ResponseView::WriteMultipleRegisters(at, quantity),
        ) => at == address && quantity == words.len(),
        _ => false,
    }
}

/// What a response that came over the wire resolves a call to, given the two
/// words of the request. Coils come in whole bytes: there must be as many
/// bytes as the quantity asks for, and the coils past the quantity are cut
/// off. Registers must be as many as the quantity. A response to a write must
/// repeat the two words.
pub open spec fn matched(first: u16, second: u16, response: ResponseView) -> Option<
    ResponseView,
> {
    match response {
        ResponseView::ReadCoils(coils) => if coils.len() == 8 * coil_bytes(second as int) {
            Some(ResponseView::ReadCoils(coils.take(second as int)))
        } else {
            None
        },
        ResponseView::ReadDiscreteInputs(coils) => if coils.len() == 8 * coil_bytes(
            second as int,
        ) {
            Some(ResponseView::ReadDiscreteInputs(coils.take(second as int)))
        } else {
            None
        },
        ResponseView::ReadInputRegisters(words) => if words.len() == second {
            Some(response)
        } else {
            None
        },
        ResponseView::ReadHoldingRegisters(words) => if words.len() == second {
            Some(response)
        } else {
            None
        },
        ResponseView::ReadWriteMultipleRegisters(words) => if words.len() == second {
            Some(response)
        } else {
            None
        },
        ResponseView::WriteSingleCoil(at, state) => if at == first && coil_word(state)
            == second {
            Some(response)
        } else {
            None
        },
        ResponseView::WriteSingleRegister(at, value) => if at == first && value == second {
            Some(response)
        } else {
            None
        },
        ResponseView::WriteMultipleCoils(at, quantity) => if at == first && quantity == second {
            Some(response)
        } else {
            None
        },
        ResponseView::WriteMultipleRegisters(at, quantity) => if at == first && quantity
            == second {
            Some(response)
        } else {
            None
        },
    }
}

/// What a reply that came over the wire resolves the call in flight to. A
/// reply from another device or about another function code is unexpected.
/// A refusal resolves the call to the reason. A response resolves it to what
/// was asked for, if it holds that, and is unexpected otherwise.
pub open spec fn accepted(asked: Outstanding, reply: ResponseAduView) -> Result<
    ResponseView,
    ClientError,
> {
    if reply.slave_id != asked.slave_id || reply_function(reply.reply) != asked.function {
        Err(ClientError::UnexpectedReply)
    } else {
        match reply.reply {
            Err(refusal) => Err(ClientError::Exception(refusal.exception)),
            Ok(response) => match matched(asked.first, asked.second, response) {
                Some(response) => Ok(response),
                None => Err(ClientError::UnexpectedReply),
            },
        }
    }
}

/// The mathematical value of what a call resolves to.
pub open spec fn resolution_view(resolution: Result<Response, ClientError>) -> Result<
    ResponseView,
    ClientError,
> {
    match resolution {
        Ok(response) => Ok(response@),
        Err(error) => Err(error),
    }
}

impl Outstanding {
    /// What a client keeps of a request.
    pub fn of(adu: &RequestAdu) -> (asked: Outstanding)
        ensures
            asked == outstanding(adu@),
    {
        let request = adu.pdu.request();
        let (first, second): (u16, u16) = match request {
            Request::ReadCoils(address, quantity) => (*address, *quantity),
            Request::ReadDiscreteInputs(address, quantity) => (*address, *quantity),
            Request::WriteSingleCoil(address, on) => (*address, coil_to_word(*on)),
            Request::WriteMultipleCoils(address, coils) => (*address, coils.len() as u16),
            Request::ReadInputRegisters(address, quantity) => (*address, *quantity),
            Request::ReadHoldingRegisters(address, quantity) => (*address, *quantity),
            Request::WriteSingleRegister(address, word) => (*address, *word),
            Request::WriteMultipleRegisters(address, words) => (*address, words.len() as u16),
            Request::ReadWriteMultipleRegisters(address, quantity, _, _) => (
                *address,
                *quantity,
            ),
        };
        Outstanding { slave_id: adu.hdr.slave_id(), function: request.function(), first, second }
    }
}

/// Cuts a run of coils that came in whole bytes down to the quantity asked
/// for; `None` if the bytes are not as many as the quantity asks for.
fn cut_coils(coils: Vec<bool>, quantity: u16) -> (cut: Option<Vec<bool>>)
    ensures
        match cut {
            Some(kept) => coils@.len() == 8 * coil_bytes(quantity as int) && kept@
                == coils@.take(quantity as int),
            None => coils@.len() != 8 * coil_bytes(quantity as int),
        },
{
    let mut coils = coils;
    if coils.len() == 8 * ((quantity as usize + 7) / 8) {
        coils.truncate(quantity as usize);
        Some(coils)
    } else {
        None
    }
}

/// Matches a response that came over the wire against the two words of the
/// request.
fn match_response(first: u16, second: u16, response: Response) -> (out: Option<Response>)
    ensures
        match out {
            Some(kept) => matched(first, second, response@) == Some(kept@),
            None => matched(first, second, response@) is None,
        },
{
    match response {
        Response::ReadCoils(coils) => match cut_coils(coils, second) {
            Some(kept) => Some(Response::ReadCoils(kept)),
            None => None,
        },
        Response::ReadDiscreteInputs(coils) => match cut_coils(coils, second) {
            Some(kept) => Some(Response::ReadDiscreteInputs(kept)),
            None => None,
        },
        Response::ReadInputRegisters(words) => if words.len() == second as usize {
            Some(Response::ReadInputRegisters(words))
        } else {
            None
        },
        Response::ReadHoldingRegisters(words) => if words.len() == second as usize {
            Some(Response::ReadHoldingRegisters(words))
        } else {
            None
        },
        Response::ReadWriteMultipleRegisters(words) => if words.len() == second as usize {
            Some(Response::ReadWriteMultipleRegisters(words))
        } else {
            None
        },
        Response::WriteSingleCoil(at, state) => if at == first && coil_to_word(state) == second {
            Some(Response::WriteSingleCoil(at, state))
        } else {
            None
        },
        Response::WriteSingleRegister(at, value) => if at == first && value == second {
            Some(Response::WriteSingleRegister(at, value))
        } else {
            None
        },
        Response::WriteMultipleCoils(at, quantity) => if at == first && quantity == second {
            Some(Response::WriteMultipleCoils(at, quantity))
        } else {
            None
        },
        Response::WriteMultipleRegisters(at, quantity) => if at == first && quantity == second {
            Some(Response::WriteMultipleRegisters(at, quantity))
        } else {
            None
        },
    }
}

/// Resolves the call in flight with the reply that came over the wire.
pub fn accept(asked: Outstanding, reply: ResponseAdu) -> (resolution: Result<Response, ClientError>)
    ensures
        resolution_view(resolution) == accepted(asked, reply@),
{
    let from = reply.hdr.slave_id();
    match reply.pdu.into_reply() {
        Err(refusal) => if from != asked.slave_id || refusal.function != asked.function {
            Err(ClientError::UnexpectedReply)
        } else {
            Err(ClientError::Exception(refusal.exception))
        },
        Ok(response) => if from != asked.slave_id || response.function() != asked.function {
            Err(ClientError::UnexpectedReply)
        } else {
            match match_response(asked.first, asked.second, response) {
                Some(kept) => Ok(kept),
                None => Err(ClientError::UnexpectedReply),
            }
        },
    }
}

/// Where a client stands.
#[derive(Clone, Copy, Debug, PartialEq, Eq, Structural)]
pub enum ClientState {
    /// No request is in flight: a call can be taken.
    Ready,
    /// A request is in flight.
    Waiting(Outstanding),
    /// The connection is over.
    Closed,
}

/// What can happen to a client.
#[derive(Debug, PartialEq, Eq)]
pub enum ClientEvent {
    /// A call is made with this request.
    Call(RequestAdu),
    /// A reply was decoded.
    Reply(ResponseAdu),
    /// Bytes were thrown away because they held no frame.
    Malformed(FrameError),
    /// No reply came in time.
    TimedOut,
    /// The peer closed the stream.
    EndOfStream,
    /// Reading from or writing to the transport failed.
    TransportFailed,
}

/// An event as a mathematical value.
pub enum ClientEventView {
    Call(RequestAduView),
    Reply(ResponseAduView),
    Malformed(FrameError),
    TimedOut,
    EndOfStream,
    TransportFailed,
}

impl View for ClientEvent {
    type V = ClientEventView;

    open spec fn view(&self) -> ClientEventView {
        match self {
            ClientEvent::Call(adu) => ClientEventView::Call(adu@),
            ClientEvent::Reply(adu) => ClientEventView::Reply(adu@),
            ClientEvent::Malformed(error) => ClientEventView::Malformed(*error),
            ClientEvent::TimedOut => ClientEventView::TimedOut,
            ClientEvent::EndOfStream => ClientEventView::EndOfStream,
            ClientEvent::TransportFailed => ClientEventView::TransportFailed,
        }
    }
}

/// What a client is to do next.
#[derive(Debug, PartialEq, Eq)]
pub enum ClientAction {
    /// Write this request; it is now in flight.
    Send(RequestAdu),
    /// Turn the new call down: it cannot be taken now.
    Refuse(ClientError),
    /// Resolve the call in flight.
    Resolve(Result<Response, ClientError>),
    /// Nothing: the event has no meaning where the client stands.
    Ignore,
}

/// An action as a mathematical value.
pub enum ClientActionView {
    Send(RequestAduView),
    Refuse(ClientError),
    Resolve(Result<ResponseView, ClientError>),
    Ignore,
}

impl View for ClientAction {
    type V = ClientActionView;

    open spec fn view(&self) -> ClientActionView {
        match self {
            ClientAction::Send(adu) => ClientActionView::Send(adu@),
            ClientAction::Refuse(error) => ClientActionView::Refuse(*error),
            ClientAction::Resolve(resolution) => ClientActionView::Resolve(
                resolution_view(*resolution),
            ),
            ClientAction::Ignore => ClientActionView::Ignore,
        }
    }
}

/// The state that follows and the action to take when `event` happens to a
/// client in `state`.
pub open spec fn client_next(state: ClientState, event: ClientEventView) -> (
    ClientState,
    ClientActionView,
) {
    match (state, event) {
        (ClientState::Ready, ClientEventView::Call(adu)) => (
            ClientState::Waiting(outstanding(adu)),
            ClientActionView::Send(adu),
        ),
        (ClientState::Waiting(_), ClientEventView::Call(_)) => (
            state,
            ClientActionView::Refuse(ClientError::Busy),
        ),
        (ClientState::Closed, ClientEventView::Call(_)) => (
            state,
            ClientActionView::Refuse(ClientError::Closed),
        ),
        (ClientState::Waiting(asked), ClientEventView::Reply(reply)) => (
            ClientState::Ready,
            ClientActionView::Resolve(accepted(asked, reply)),
        ),
        (ClientState::Waiting(_), ClientEventView::Malformed(error)) => (
            ClientState::Ready,
            ClientActionView::Resolve(Err(ClientError::Frame(error))),
        ),
        (ClientState::Waiting(_), ClientEventView::TimedOut) => (
            ClientState::Ready,
            ClientActionView::Resolve(Err(ClientError::TimedOut)),
        ),
        (ClientState::Waiting(_), ClientEventView::EndOfStream) => (
            ClientState::Closed,
            ClientActionView::Resolve(Err(ClientError::Closed)),
        ),
        (ClientState::Waiting(_), ClientEventView::TransportFailed) => (
            ClientState::Closed,
            ClientActionView::Resolve(Err(ClientError::Transport)),
        ),
        (ClientState::Ready, ClientEventView::EndOfStream) => (
            ClientState::Closed,
            ClientActionView::Ignore,
        ),
        (ClientState::Ready, ClientEventView::TransportFailed) => (
            ClientState::Closed,
            ClientActionView::Ignore,
        ),
        (state, _) => (state, ClientActionView::Ignore),
    }
}

/// The client side of one connection.
#[derive(Debug)]
pub struct Client {
    state: ClientState,
}

impl Client {
    /// Where the client stands.
    pub closed spec fn spec_state(&self) -> ClientState {
        self.state
    }

    /// A client with no request in flight.
    pub fn new() -> (client: Client)
        ensures
            client.spec_state() == ClientState::Ready,
    {
        Client { state: ClientState::Ready }
    }

    /// Where the client stands.
    #[verifier::when_used_as_spec(spec_state)]
    pub fn state(&self) -> (state: ClientState)
        ensures
            state == self.spec_state(),
    {
        self.state
    }

    /// Takes in an event: moves to the state that follows and tells what to
    /// do next.
    pub fn step(&mut self, event: ClientEvent) -> (action: ClientAction)
        ensures
            (final(self).spec_state(), action@) == client_next(old(self).spec_state(), event@),
    {
        let state = self.state;
        let (state, action) = match (state, event) {
            (ClientState::Ready, ClientEvent::Call(adu)) => (
                ClientState::Waiting(Outstanding::of(&adu)),
                ClientAction::Send(adu),
            ),
            (ClientState::Waiting(_), ClientEvent::Call(_)) => (
                state,
                ClientAction::Refuse(ClientError::Busy),
            ),
            (ClientState::Closed, ClientEvent::Call(_)) => (
                state,
                ClientAction::Refuse(ClientError::Closed),
            ),
            (ClientState::Waiting(asked), ClientEvent::Reply(reply)) => (
                ClientState::Ready,
                ClientAction::Resolve(accept(asked, reply)),
            ),
            (ClientState::Waiting(_), ClientEvent::Malformed(error)) => (
                ClientState::Ready,
                ClientAction::Resolve(Err(ClientError::Frame(error))),
            ),
            (ClientState::Waiting(_), ClientEvent::TimedOut) => (
                ClientState::Ready,
                ClientAction::Resolve(Err(ClientError::TimedOut)),
            ),
            (ClientState::Waiting(_), ClientEvent::EndOfStream) => (
                ClientState::Closed,
                ClientAction::Resolve(Err(ClientError::Closed)),
            ),
            (ClientState::Waiting(_), ClientEvent::TransportFailed) => (
                ClientState::Closed,
                ClientAction::Resolve(Err(ClientError::Transport)),
            ),
            (ClientState::Ready, ClientEvent::EndOfStream) => (
                ClientState::Closed,
                ClientAction::Ignore,
            ),
            (ClientState::Ready, ClientEvent::TransportFailed) => (
                ClientState::Closed,
                ClientAction::Ignore,
            ),
            (state, _) => (state, ClientAction::Ignore),
        };
        self.state = state;
        action
    }
}

} // verus!
