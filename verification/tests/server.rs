use modbus_rtu::codec::{decode_response, encode_request, encode_response};
use modbus_rtu::format::{Decoded, FrameError};
use modbus_rtu::frame::{
    Exception, FunctionCode, Header, Request, RequestAdu, RequestPdu, Response, ResponseAdu,
    ResponsePdu,
};
use modbus_rtu::process::{process, serve};
use modbus_rtu::server::{
    respond, serve_request, Server, ServerAction, ServerError, ServerEvent, ServerState, Stop,
};
use modbus_rtu::service::{NewService, Service};

/// Answers requests for input registers with zeros but for one register, and
/// refuses everything else.
struct InputRegisters;

impl Service for InputRegisters {
    fn call(&self, request: Request) -> Result<Response, Exception> {
        match request {
            Request::ReadInputRegisters(_, count) => {
                let mut registers = vec![0u16; count as usize];
                if registers.len() > 2 {
                    registers[2] = 0x77;
                }
                Ok(Response::ReadInputRegisters(registers))
            }
            _ => Err(Exception::IllegalFunction),
        }
    }
}

/// Makes a service for each connection.
struct Factory;

impl NewService for Factory {
    type Instance = InputRegisters;

    fn new_service(&self) -> InputRegisters {
        InputRegisters
    }
}

/// Answers every request with a response to another function code.
struct Confused;

impl Service for Confused {
    fn call(&self, _request: Request) -> Result<Response, Exception> {
        Ok(Response::WriteSingleRegister(0, 0))
    }
}

fn request(slave: u8, request: Request) -> RequestAdu {
    RequestAdu { hdr: Header::new(slave).unwrap(), pdu: RequestPdu::new(request).unwrap() }
}

fn response(slave: u8, response: Response) -> ResponseAdu {
    ResponseAdu { hdr: Header::new(slave).unwrap(), pdu: ResponsePdu::new(Ok(response)).unwrap() }
}

fn refusal(slave: u8, function: FunctionCode, exception: Exception) -> ResponseAdu {
    ResponseAdu {
        hdr: Header::new(slave).unwrap(),
        pdu: ResponsePdu::exception(function, exception),
    }
}

fn serving() -> Server {
    let mut server = Server::new();
    assert_eq!(server.step(ServerEvent::Started), ServerAction::Receive);
    server
}

fn handling(slave: u8, asked: Request) -> Server {
    let mut server = serving();
    let action = server.step(ServerEvent::Request(request(slave, asked.clone())));
    assert_eq!(action, ServerAction::Call(asked));
    server
}

fn sending() -> Server {
    let mut server = handling(1, Request::ReadInputRegisters(0, 1));
    let action = server.step(ServerEvent::Handled(Ok(Response::ReadInputRegisters(vec![5]))));
    assert_eq!(action, ServerAction::Send(response(1, Response::ReadInputRegisters(vec![5]))));
    server
}

#[test]
fn server_starts_idle_and_serves_once_started() {
    let mut server = Server::new();
    assert_eq!(server.state(), ServerState::Idle);
    assert_eq!(server.step(ServerEvent::Started), ServerAction::Receive);
    assert_eq!(server.state(), ServerState::Receiving);
}

#[test]
fn idle_server_ignores_what_has_not_started() {
    for event in [
        ServerEvent::Request(request(1, Request::ReadCoils(0, 1))),
        ServerEvent::Malformed(FrameError::Checksum),
        ServerEvent::EndOfStream,
        ServerEvent::TransportFailed,
        ServerEvent::Handled(Err(Exception::IllegalFunction)),
        ServerEvent::Sent,
    ] {
        let mut server = Server::new();
        assert_eq!(server.step(event), ServerAction::Ignore);
        assert_eq!(server.state(), ServerState::Idle);
    }
}

#[test]
fn request_is_handed_to_the_service() {
    let server = handling(17, Request::ReadHoldingRegisters(0x6B, 3));
    assert_eq!(server.state(), ServerState::Handling(17, FunctionCode::ReadHoldingRegisters));
}

#[test]
fn response_goes_back_to_the_device_address_of_the_request() {
    let mut server = handling(17, Request::ReadHoldingRegisters(0x6B, 3));
    let action =
        server.step(ServerEvent::Handled(Ok(Response::ReadHoldingRegisters(vec![1, 2, 3]))));
    assert_eq!(
        action,
        ServerAction::Send(response(17, Response::ReadHoldingRegisters(vec![1, 2, 3])))
    );
    assert_eq!(server.state(), ServerState::Sending);
    assert_eq!(server.step(ServerEvent::Sent), ServerAction::Receive);
    assert_eq!(server.state(), ServerState::Receiving);
}

#[test]
fn refusal_goes_back_as_an_exception_and_the_server_serves_on() {
    let mut server = handling(1, Request::WriteSingleCoil(3, true));
    let action = server.step(ServerEvent::Handled(Err(Exception::IllegalFunction)));
    assert_eq!(
        action,
        ServerAction::Send(refusal(1, FunctionCode::WriteSingleCoil, Exception::IllegalFunction))
    );
    assert_eq!(server.state(), ServerState::Sending);
    assert_eq!(server.step(ServerEvent::Sent), ServerAction::Receive);
    let asked = Request::ReadInputRegisters(0, 7);
    assert_eq!(
        server.step(ServerEvent::Request(request(1, asked.clone()))),
        ServerAction::Call(asked)
    );
}

#[test]
fn response_to_another_function_code_fails_the_connection() {
    let mut server = handling(1, Request::ReadCoils(0, 1));
    let action = server.step(ServerEvent::Handled(Ok(Response::ReadDiscreteInputs(vec![true]))));
    assert_eq!(action, ServerAction::Stop(Stop::Failed(ServerError::Service)));
    assert_eq!(server.state(), ServerState::Closed);
}

#[test]
fn response_that_breaks_a_limit_fails_the_connection() {
    let mut server = handling(1, Request::ReadInputRegisters(0, 125));
    let action = server.step(ServerEvent::Handled(Ok(Response::ReadInputRegisters(vec![0; 126]))));
    assert_eq!(action, ServerAction::Stop(Stop::Failed(ServerError::Service)));
    assert_eq!(server.state(), ServerState::Closed);
}

#[test]
fn end_of_stream_closes_without_error() {
    let mut server = serving();
    assert_eq!(server.step(ServerEvent::EndOfStream), ServerAction::Stop(Stop::EndOfStream));
    assert_eq!(server.state(), ServerState::Closed);
}

#[test]
fn transport_failure_closes_with_error() {
    let mut server = serving();
    assert_eq!(
        server.step(ServerEvent::TransportFailed),
        ServerAction::Stop(Stop::Failed(ServerError::Transport))
    );
    assert_eq!(server.state(), ServerState::Closed);
    let mut server = sending();
    assert_eq!(
        server.step(ServerEvent::TransportFailed),
        ServerAction::Stop(Stop::Failed(ServerError::Transport))
    );
    assert_eq!(server.state(), ServerState::Closed);
}

#[test]
fn bad_checksum_closes_with_the_checksum_error() {
    let mut server = serving();
    assert_eq!(
        server.step(ServerEvent::Malformed(FrameError::Checksum)),
        ServerAction::Stop(Stop::Failed(ServerError::Frame(FrameError::Checksum)))
    );
    assert_eq!(server.state(), ServerState::Closed);
}

#[test]
fn malformed_frames_close_with_error() {
    for error in [
        FrameError::Checksum,
        FrameError::UnsupportedFunction,
        FrameError::InvalidSlave,
        FrameError::InvalidPayload,
        FrameError::Truncated,
    ] {
        let mut server = serving();
        assert_eq!(
            server.step(ServerEvent::Malformed(error)),
            ServerAction::Stop(Stop::Failed(ServerError::Frame(error)))
        );
        assert_eq!(server.state(), ServerState::Closed);
    }
}

#[test]
fn shutdown_of_an_idle_server_closes_it() {
    let mut server = Server::new();
    assert_eq!(server.step(ServerEvent::Shutdown), ServerAction::Stop(Stop::Shutdown));
    assert_eq!(server.state(), ServerState::Closed);
}

#[test]
fn shutdown_with_no_request_in_flight_sends_nothing() {
    let mut server = serving();
    assert_eq!(server.step(ServerEvent::Shutdown), ServerAction::Abandon);
    assert_eq!(server.state(), ServerState::Draining);
    let late = ServerEvent::Request(request(1, Request::ReadCoils(0, 1)));
    assert_eq!(server.step(late), ServerAction::Stop(Stop::Shutdown));
    assert_eq!(server.state(), ServerState::Closed);
    assert_eq!(server.step(ServerEvent::Sent), ServerAction::Ignore);
    assert_eq!(server.state(), ServerState::Closed);
}

#[test]
fn shutdown_during_an_exchange_sends_no_reply() {
    let mut server = handling(1, Request::ReadInputRegisters(0, 1));
    assert_eq!(server.step(ServerEvent::Shutdown), ServerAction::Abandon);
    assert_eq!(server.state(), ServerState::Draining);
    let late = ServerEvent::Handled(Ok(Response::ReadInputRegisters(vec![5])));
    assert_eq!(server.step(late), ServerAction::Stop(Stop::Shutdown));
    assert_eq!(server.state(), ServerState::Closed);
}

#[test]
fn shutdown_during_a_write_lets_the_write_finish() {
    let mut server = sending();
    assert_eq!(server.step(ServerEvent::Shutdown), ServerAction::Finish);
    assert_eq!(server.state(), ServerState::Draining);
    assert_eq!(server.step(ServerEvent::Sent), ServerAction::Stop(Stop::Shutdown));
    assert_eq!(server.state(), ServerState::Closed);
    let mut server = sending();
    assert_eq!(server.step(ServerEvent::Shutdown), ServerAction::Finish);
    assert_eq!(server.step(ServerEvent::TransportFailed), ServerAction::Stop(Stop::Shutdown));
    assert_eq!(server.state(), ServerState::Closed);
}

#[test]
fn only_a_read_or_a_call_is_abandoned() {
    let mut server = serving();
    assert_eq!(server.step(ServerEvent::Shutdown), ServerAction::Abandon);
    assert_eq!(server.step(ServerEvent::Abandoned), ServerAction::Stop(Stop::Shutdown));
    let mut server = handling(1, Request::ReadCoils(0, 1));
    assert_eq!(server.step(ServerEvent::Shutdown), ServerAction::Abandon);
    assert_eq!(server.step(ServerEvent::Abandoned), ServerAction::Stop(Stop::Shutdown));
    assert_eq!(server.state(), ServerState::Closed);
}

#[test]
fn closed_server_ignores_everything() {
    for event in [
        ServerEvent::Started,
        ServerEvent::Request(request(1, Request::ReadCoils(0, 1))),
        ServerEvent::Malformed(FrameError::Checksum),
        ServerEvent::EndOfStream,
        ServerEvent::TransportFailed,
        ServerEvent::Handled(Err(Exception::IllegalFunction)),
        ServerEvent::Sent,
        ServerEvent::Shutdown,
        ServerEvent::Abandoned,
    ] {
        let mut server = serving();
        server.step(ServerEvent::EndOfStream);
        assert_eq!(server.step(event), ServerAction::Ignore);
        assert_eq!(server.state(), ServerState::Closed);
    }
}

#[test]
fn events_out_of_turn_are_ignored() {
    let mut server = serving();
    assert_eq!(server.step(ServerEvent::Sent), ServerAction::Ignore);
    assert_eq!(server.step(ServerEvent::Started), ServerAction::Ignore);
    assert_eq!(
        server.step(ServerEvent::Handled(Err(Exception::IllegalFunction))),
        ServerAction::Ignore
    );
    assert_eq!(server.state(), ServerState::Receiving);
    let mut server = handling(4, Request::ReadCoils(0, 1));
    assert_eq!(
        server.step(ServerEvent::Request(request(5, Request::ReadCoils(0, 2)))),
        ServerAction::Ignore
    );
    assert_eq!(server.step(ServerEvent::Sent), ServerAction::Ignore);
    assert_eq!(server.step(ServerEvent::EndOfStream), ServerAction::Ignore);
    assert_eq!(server.state(), ServerState::Handling(4, FunctionCode::ReadCoils));
    assert_eq!(
        server.step(ServerEvent::Handled(Ok(Response::ReadCoils(vec![true])))),
        ServerAction::Send(response(4, Response::ReadCoils(vec![true])))
    );
}

#[test]
fn replies_go_out_in_the_order_of_the_requests() {
    let asked = vec![
        request(1, Request::ReadInputRegisters(0, 3)),
        request(2, Request::WriteSingleCoil(9, true)),
        request(3, Request::ReadInputRegisters(5, 1)),
        request(4, Request::ReadCoils(0, 1)),
    ];
    let service = Factory.new_service();
    let mut server = serving();
    let mut replies = Vec::new();
    for adu in asked {
        let call = match server.step(ServerEvent::Request(adu)) {
            ServerAction::Call(call) => call,
            other => panic!("{:?}", other),
        };
        match server.step(ServerEvent::Handled(service.call(call))) {
            ServerAction::Send(reply) => replies.push(reply),
            other => panic!("{:?}", other),
        }
        assert_eq!(server.step(ServerEvent::Sent), ServerAction::Receive);
    }
    assert_eq!(
        replies,
        vec![
            response(1, Response::ReadInputRegisters(vec![0, 0, 0x77])),
            refusal(2, FunctionCode::WriteSingleCoil, Exception::IllegalFunction),
            response(3, Response::ReadInputRegisters(vec![0])),
            refusal(4, FunctionCode::ReadCoils, Exception::IllegalFunction),
        ]
    );
    assert_eq!(server.state(), ServerState::Receiving);
}

#[test]
fn respond_makes_the_reply_for_each_outcome() {
    let hdr = Header::new(7).unwrap();
    assert_eq!(
        respond(hdr, FunctionCode::ReadCoils, Ok(Response::ReadCoils(vec![true, false]))),
        Some(response(7, Response::ReadCoils(vec![true, false])))
    );
    assert_eq!(
        respond(hdr, FunctionCode::ReadCoils, Err(Exception::ServerDeviceBusy)),
        Some(refusal(7, FunctionCode::ReadCoils, Exception::ServerDeviceBusy))
    );
    assert_eq!(
        respond(hdr, FunctionCode::ReadCoils, Ok(Response::ReadDiscreteInputs(vec![true]))),
        None
    );
    assert_eq!(respond(hdr, FunctionCode::ReadCoils, Ok(Response::ReadCoils(vec![]))), None);
}

#[test]
fn serve_request_asks_the_service() {
    let reply = serve_request(&InputRegisters, request(1, Request::ReadInputRegisters(0, 7)));
    assert_eq!(reply, Some(response(1, Response::ReadInputRegisters(vec![0, 0, 0x77, 0, 0, 0, 0]))));
    let reply = serve_request(&InputRegisters, request(9, Request::WriteSingleRegister(0, 7)));
    assert_eq!(
        reply,
        Some(refusal(9, FunctionCode::WriteSingleRegister, Exception::IllegalFunction))
    );
    assert_eq!(serve_request(&Confused, request(9, Request::ReadCoils(0, 7))), None);
    assert_eq!(
        serve_request(&Confused, request(9, Request::WriteSingleRegister(4, 7))),
        Some(response(9, Response::WriteSingleRegister(0, 0)))
    );
}

#[test]
fn read_input_registers_scenario_on_the_wire() {
    let asked = encode_request(&request(1, Request::ReadInputRegisters(0x00, 7)));
    assert_eq!(asked, vec![0x01, 0x04, 0x00, 0x00, 0x00, 0x07, 0xB1, 0xC8]);
    let (written, stop) = process(&InputRegisters, &asked);
    assert_eq!(stop, Stop::EndOfStream);
    assert_eq!(
        written,
        vec![
            0x01, 0x04, 0x0E, 0x00, 0x00, 0x00, 0x00, 0x00, 0x77, 0x00, 0x00, 0x00, 0x00, 0x00,
            0x00, 0x00, 0x00, 0xEE, 0xD5,
        ]
    );
    assert_eq!(written[2] as usize, 7 * 2);
    assert_eq!(
        decode_response(&written),
        Decoded::Frame(response(1, Response::ReadInputRegisters(vec![0, 0, 0x77, 0, 0, 0, 0])), 19)
    );
}

#[test]
fn process_of_an_empty_stream_writes_nothing() {
    assert_eq!(process(&InputRegisters, &[]), (vec![], Stop::EndOfStream));
}

#[test]
fn process_answers_every_request_in_order() {
    let mut stream = Vec::new();
    stream.extend(encode_request(&request(1, Request::ReadInputRegisters(0, 1))));
    stream.extend(encode_request(&request(2, Request::ReadCoils(0, 4))));
    stream.extend(encode_request(&request(3, Request::ReadInputRegisters(0, 3))));
    let mut expected = Vec::new();
    expected.extend(encode_response(&response(1, Response::ReadInputRegisters(vec![0]))));
    expected.extend(encode_response(&refusal(
        2,
        FunctionCode::ReadCoils,
        Exception::IllegalFunction,
    )));
    expected.extend(encode_response(&response(3, Response::ReadInputRegisters(vec![0, 0, 0x77]))));
    assert_eq!(process(&InputRegisters, &stream), (expected, Stop::EndOfStream));
}

#[test]
fn process_fails_when_the_stream_ends_within_a_frame() {
    let mut stream = encode_request(&request(1, Request::ReadInputRegisters(0, 1)));
    stream.extend_from_slice(&[0x01, 0x04, 0x00]);
    let expected = encode_response(&response(1, Response::ReadInputRegisters(vec![0])));
    assert_eq!(
        process(&InputRegisters, &stream),
        (expected, Stop::Failed(ServerError::Frame(FrameError::Truncated)))
    );
    assert_eq!(
        process(&InputRegisters, &[0x01]),
        (vec![], Stop::Failed(ServerError::Frame(FrameError::Truncated)))
    );
}

#[test]
fn process_fails_on_a_frame_with_a_bad_checksum() {
    let mut stream = vec![0x01, 0x04, 0x00, 0x00, 0x00, 0x07, 0xB1, 0xC9];
    stream.extend(encode_request(&request(1, Request::ReadInputRegisters(0, 1))));
    assert_eq!(
        process(&InputRegisters, &stream),
        (vec![], Stop::Failed(ServerError::Frame(FrameError::Checksum)))
    );
    let mut stream = encode_request(&request(1, Request::ReadInputRegisters(0, 1)));
    stream.extend_from_slice(&[0x01, 0x04, 0x00, 0x00, 0x00, 0x07, 0xB1, 0xC9]);
    stream.extend(encode_request(&request(1, Request::ReadInputRegisters(0, 1))));
    let expected = encode_response(&response(1, Response::ReadInputRegisters(vec![0])));
    assert_eq!(
        process(&InputRegisters, &stream),
        (expected, Stop::Failed(ServerError::Frame(FrameError::Checksum)))
    );
}

/// Counts its calls and answers like `Confused`.
struct Counting(std::cell::Cell<usize>);

impl Service for Counting {
    fn call(&self, _request: Request) -> Result<Response, Exception> {
        self.0.set(self.0.get() + 1);
        Ok(Response::WriteSingleRegister(0, 0))
    }
}

#[test]
fn process_never_hands_on_a_frame_with_a_flipped_bit() {
    let frames = [
        encode_request(&request(1, Request::ReadInputRegisters(0, 7))),
        encode_request(&request(1, Request::WriteSingleRegister(1, 3))),
        encode_request(&request(1, Request::WriteMultipleRegisters(1, vec![0x000A, 0x0102]))),
        encode_request(&request(1, Request::WriteMultipleCoils(0x13, vec![true; 10]))),
        encode_request(&request(
            1,
            Request::ReadWriteMultipleRegisters(3, 6, 0x0E, vec![0xFF, 0xFF, 0xFF]),
        )),
    ];
    for frame in frames {
        let code_at = 1;
        let count_at = match frame[1] {
            0x0F | 0x10 => Some(6),
            0x17 => Some(10),
            _ => None,
        };
        for at in 0..frame.len() - 2 {
            for bit in 0..8 {
                let mut changed = frame.clone();
                changed[at] ^= 1 << bit;
                let service = Counting(std::cell::Cell::new(0));
                let (written, stop) = process(&service, &changed);
                assert_eq!(service.0.get(), 0);
                assert_eq!(written, Vec::<u8>::new());
                assert!(matches!(stop, Stop::Failed(ServerError::Frame(_))));
                if at != code_at && Some(at) != count_at {
                    assert_eq!(stop, Stop::Failed(ServerError::Frame(FrameError::Checksum)));
                }
            }
        }
    }
}

#[test]
fn process_never_stops_as_by_a_shutdown() {
    let mut stream = Vec::new();
    for k in 0..5u16 {
        stream.extend(encode_request(&request(1, Request::ReadInputRegisters(k, 1))));
        let (_, stop) = process(&InputRegisters, &stream);
        assert_eq!(stop, Stop::EndOfStream);
        let (_, stop) = serve(&Factory, &stream[..stream.len() - 1]);
        assert_eq!(stop, Stop::Failed(ServerError::Frame(FrameError::Truncated)));
    }
}

#[test]
fn process_fails_on_a_frame_that_cannot_be_told_apart() {
    let mut stream = encode_request(&request(1, Request::ReadInputRegisters(0, 1)));
    stream.extend_from_slice(&[0x01, 0x2B, 0x00, 0x00, 0x00, 0x00, 0x25, 0xCC]);
    stream.extend(encode_request(&request(1, Request::ReadInputRegisters(0, 1))));
    let expected = encode_response(&response(1, Response::ReadInputRegisters(vec![0])));
    assert_eq!(
        process(&InputRegisters, &stream),
        (expected, Stop::Failed(ServerError::Frame(FrameError::UnsupportedFunction)))
    );
}

#[test]
fn process_fails_on_a_payload_that_breaks_a_limit() {
    let stream = [0x01, 0x04, 0x00, 0x00, 0x00, 0x00, 0xF0, 0x0A];
    assert_eq!(
        process(&InputRegisters, &stream),
        (vec![], Stop::Failed(ServerError::Frame(FrameError::InvalidPayload)))
    );
    let stream = [0xF8, 0x04, 0x00, 0x00, 0x00, 0x07, 0xA5, 0xA1];
    assert_eq!(
        process(&InputRegisters, &stream),
        (vec![], Stop::Failed(ServerError::Frame(FrameError::InvalidSlave)))
    );
}

#[test]
fn process_fails_on_a_fault_of_the_service() {
    let mut stream = encode_request(&request(1, Request::WriteSingleRegister(1, 1)));
    stream.extend(encode_request(&request(1, Request::ReadInputRegisters(0, 1))));
    stream.extend(encode_request(&request(1, Request::WriteSingleRegister(1, 1))));
    let expected = encode_response(&response(1, Response::WriteSingleRegister(0, 0)));
    assert_eq!(
        process(&Confused, &stream),
        (expected, Stop::Failed(ServerError::Service))
    );
}

#[test]
fn serve_makes_a_service_for_the_connection() {
    let mut stream = encode_request(&request(1, Request::ReadInputRegisters(0, 3)));
    stream.extend(encode_request(&request(1, Request::WriteSingleCoil(0, true))));
    let mut expected = encode_response(&response(1, Response::ReadInputRegisters(vec![0, 0, 0x77])));
    expected.extend(encode_response(&refusal(
        1,
        FunctionCode::WriteSingleCoil,
        Exception::IllegalFunction,
    )));
    assert_eq!(serve(&Factory, &stream), (expected, Stop::EndOfStream));
    assert_eq!(serve(&Factory, &[]), (vec![], Stop::EndOfStream));
}

#[test]
fn serving_is_receiving_handling_or_sending() {
    assert!(!Server::new().state().is_serving());
    assert!(serving().state().is_serving());
    assert!(handling(1, Request::ReadCoils(0, 1)).state().is_serving());
    assert!(sending().state().is_serving());
    let mut server = serving();
    server.step(ServerEvent::Shutdown);
    assert!(!server.state().is_serving());
    server.step(ServerEvent::Abandoned);
    assert!(!server.state().is_serving());
    assert_eq!(server.state(), ServerState::Closed);
}
