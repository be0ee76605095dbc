use modbus_rtu::codec::{
    decode_request, decode_request_eof, decode_response, decode_response_eof, encode_request,
    encode_response, find_request_end, find_response_end, parse_reply_pdu, parse_request_pdu,
    ClientCodec, ServerCodec,
};
use modbus_rtu::format::{Decoded, Extent, FrameError, MIN_FRAME_LEN};
use modbus_rtu::frame::{
    Exception, FunctionCode, Header, Request, RequestAdu, RequestPdu, Response, ResponseAdu,
    ResponsePdu,
};

fn request(slave: u8, request: Request) -> RequestAdu {
    RequestAdu { hdr: Header::new(slave).unwrap(), pdu: RequestPdu::new(request).unwrap() }
}

fn response(slave: u8, response: Response) -> ResponseAdu {
    ResponseAdu { hdr: Header::new(slave).unwrap(), pdu: ResponsePdu::new(Ok(response)).unwrap() }
}

fn refusal(slave: u8, function: FunctionCode, exception: Exception) -> ResponseAdu {
    ResponseAdu {
        hdr: Header::new(slave).unwrap(),
        pdu: ResponsePdu::exception(function, exception),
    }
}

fn requests_with_frames() -> Vec<(RequestAdu, Vec<u8>)> {
    vec![
        (
            request(1, Request::ReadCoils(0x13, 0x13)),
            vec![0x01, 0x01, 0x00, 0x13, 0x00, 0x13, 0x8C, 0x02],
        ),
        (
            request(1, Request::ReadDiscreteInputs(0xC4, 0x16)),
            vec![0x01, 0x02, 0x00, 0xC4, 0x00, 0x16, 0xB8, 0x39],
        ),
        (
            request(0x11, Request::ReadHoldingRegisters(0x6B, 3)),
            vec![0x11, 0x03, 0x00, 0x6B, 0x00, 0x03, 0x76, 0x87],
        ),
        (
            request(1, Request::ReadInputRegisters(0, 7)),
            vec![0x01, 0x04, 0x00, 0x00, 0x00, 0x07, 0xB1, 0xC8],
        ),
        (
            request(247, Request::ReadInputRegisters(0, 7)),
            vec![0xF7, 0x04, 0x00, 0x00, 0x00, 0x07, 0xA5, 0x5E],
        ),
        (
            request(1, Request::WriteSingleCoil(0xAC, true)),
            vec![0x01, 0x05, 0x00, 0xAC, 0xFF, 0x00, 0x4C, 0x1B],
        ),
        (
            request(1, Request::WriteSingleCoil(0xAC, false)),
            vec![0x01, 0x05, 0x00, 0xAC, 0x00, 0x00, 0x0D, 0xEB],
        ),
        (
            request(0, Request::WriteSingleRegister(1, 3)),
            vec![0x00, 0x06, 0x00, 0x01, 0x00, 0x03, 0x99, 0xDA],
        ),
        (
            request(
                1,
                Request::WriteMultipleCoils(
                    0x13,
                    vec![true, false, true, true, false, false, true, true, true, false],
                ),
            ),
            vec![0x01, 0x0F, 0x00, 0x13, 0x00, 0x0A, 0x02, 0xCD, 0x01, 0x72, 0xCB],
        ),
        (
            request(1, Request::WriteMultipleRegisters(1, vec![0x000A, 0x0102])),
            vec![0x01, 0x10, 0x00, 0x01, 0x00, 0x02, 0x04, 0x00, 0x0A, 0x01, 0x02, 0x92, 0x30],
        ),
        (
            request(1, Request::ReadWriteMultipleRegisters(3, 6, 0x0E, vec![0xFF, 0xFF, 0xFF])),
            vec![
                0x01, 0x17, 0x00, 0x03, 0x00, 0x06, 0x00, 0x0E, 0x00, 0x03, 0x06, 0x00, 0xFF, 0x00,
                0xFF, 0x00, 0xFF, 0x46, 0x91,
            ],
        ),
    ]
}

fn bits(bytes: &[u8]) -> Vec<bool> {
    let mut coils = Vec::new();
    for byte in bytes {
        for bit in 0..8 {
            coils.push(byte & (1 << bit) != 0);
        }
    }
    coils
}

fn responses_with_frames() -> Vec<(ResponseAdu, Vec<u8>)> {
    vec![
        (
            response(1, Response::ReadCoils(bits(&[0xCD, 0x6B, 0x05]))),
            vec![0x01, 0x01, 0x03, 0xCD, 0x6B, 0x05, 0x42, 0x82],
        ),
        (
            response(1, Response::ReadDiscreteInputs(bits(&[0x05]))),
            vec![0x01, 0x02, 0x01, 0x05, 0x61, 0x8B],
        ),
        (
            response(1, Response::ReadHoldingRegisters(vec![0x022B, 0, 0x64])),
            vec![0x01, 0x03, 0x06, 0x02, 0x2B, 0x00, 0x00, 0x00, 0x64, 0x05, 0x7A],
        ),
        (
            response(1, Response::ReadInputRegisters(vec![0, 0, 0x77, 0, 0, 0, 0])),
            vec![
                0x01, 0x04, 0x0E, 0x00, 0x00, 0x00, 0x00, 0x00, 0x77, 0x00, 0x00, 0x00, 0x00, 0x00,
                0x00, 0x00, 0x00, 0xEE, 0xD5,
            ],
        ),
        (
            response(1, Response::WriteSingleCoil(0xAC, true)),
            vec![0x01, 0x05, 0x00, 0xAC, 0xFF, 0x00, 0x4C, 0x1B],
        ),
        (
            response(1, Response::WriteSingleRegister(1, 3)),
            vec![0x01, 0x06, 0x00, 0x01, 0x00, 0x03, 0x98, 0x0B],
        ),
        (
            response(1, Response::WriteMultipleCoils(0x13, 0x0A)),
            vec![0x01, 0x0F, 0x00, 0x13, 0x00, 0x0A, 0x24, 0x09],
        ),
        (
            response(1, Response::WriteMultipleRegisters(1, 2)),
            vec![0x01, 0x10, 0x00, 0x01, 0x00, 0x02, 0x10, 0x08],
        ),
        (
            response(1, Response::ReadWriteMultipleRegisters(vec![0x00FE, 0x0ACD])),
            vec![0x01, 0x17, 0x04, 0x00, 0xFE, 0x0A, 0xCD, 0x5F, 0xE2],
        ),
        (
            refusal(1, FunctionCode::ReadInputRegisters, Exception::IllegalFunction),
            vec![0x01, 0x84, 0x01, 0x82, 0xC0],
        ),
        (
            refusal(1, FunctionCode::ReadCoils, Exception::IllegalDataAddress),
            vec![0x01, 0x81, 0x02, 0xC1, 0x91],
        ),
    ]
}

#[test]
fn shortest_frame_is_four_bytes() {
    assert_eq!(MIN_FRAME_LEN, 4);
}

#[test]
fn requests_encode_to_their_frames() {
    for (adu, frame) in requests_with_frames() {
        assert_eq!(encode_request(&adu), frame);
    }
}

#[test]
fn responses_encode_to_their_frames() {
    for (adu, frame) in responses_with_frames() {
        assert_eq!(encode_response(&adu), frame);
    }
}

#[test]
fn request_frames_decode_to_their_requests() {
    for (adu, frame) in requests_with_frames() {
        let taken = frame.len();
        assert_eq!(decode_request(&frame), Decoded::Frame(adu, taken));
    }
}

#[test]
fn response_frames_decode_to_their_responses() {
    for (adu, frame) in responses_with_frames() {
        let taken = frame.len();
        assert_eq!(decode_response(&frame), Decoded::Frame(adu, taken));
    }
}

#[test]
fn requests_survive_encoding_and_decoding() {
    let mut all: Vec<RequestAdu> = requests_with_frames().into_iter().map(|(adu, _)| adu).collect();
    all.push(request(5, Request::ReadCoils(0xFFFF, 2000)));
    all.push(request(5, Request::WriteMultipleCoils(7, vec![true; 1968])));
    all.push(request(5, Request::WriteMultipleCoils(7, vec![true])));
    all.push(request(5, Request::WriteMultipleRegisters(7, (0..123).collect())));
    all.push(request(
        5,
        Request::ReadWriteMultipleRegisters(1, 125, 2, (0..121).map(|w| w * 500).collect()),
    ));
    for adu in all {
        let frame = encode_request(&adu);
        assert!(frame.len() <= 256);
        let taken = frame.len();
        assert_eq!(decode_request(&frame), Decoded::Frame(adu, taken));
    }
}

#[test]
fn responses_survive_encoding_and_decoding() {
    let mut all: Vec<ResponseAdu> =
        responses_with_frames().into_iter().map(|(adu, _)| adu).collect();
    all.push(response(5, Response::ReadCoils(vec![true; 2000])));
    all.push(response(5, Response::ReadInputRegisters((0..125).map(|w| w * 500).collect())));
    all.push(response(5, Response::WriteSingleCoil(3, false)));
    for exception in [
        Exception::IllegalFunction,
        Exception::IllegalDataAddress,
        Exception::IllegalDataValue,
        Exception::ServerDeviceFailure,
        Exception::Acknowledge,
        Exception::ServerDeviceBusy,
        Exception::MemoryParityError,
        Exception::GatewayPathUnavailable,
        Exception::GatewayTargetDevice,
    ] {
        all.push(refusal(9, FunctionCode::ReadWriteMultipleRegisters, exception));
    }
    for adu in all {
        let frame = encode_response(&adu);
        assert!(frame.len() <= 256);
        let taken = frame.len();
        assert_eq!(decode_response(&frame), Decoded::Frame(adu, taken));
    }
}

#[test]
fn coils_in_a_response_come_back_filled_up_to_whole_bytes() {
    let sent = response(1, Response::ReadCoils(vec![true, false, true]));
    let frame = encode_response(&sent);
    assert_eq!(frame, vec![0x01, 0x01, 0x01, 0x05, 0x91, 0x8B]);
    let received =
        response(1, Response::ReadCoils(vec![true, false, true, false, false, false, false, false]));
    assert_eq!(decode_response(&frame), Decoded::Frame(received, 6));
}

#[test]
fn decoding_takes_only_the_first_frame() {
    let (first, mut stream) = requests_with_frames().remove(9);
    let taken = stream.len();
    stream.extend_from_slice(&[0x01, 0x04, 0x00, 0x00, 0x00, 0x07, 0xB1, 0xC8, 0x55]);
    assert_eq!(decode_request(&stream), Decoded::Frame(first, taken));
    assert_eq!(
        decode_request(&stream[taken..]),
        Decoded::Frame(request(1, Request::ReadInputRegisters(0, 7)), 8)
    );
    assert_eq!(decode_request(&stream[taken + 8..]), Decoded::Incomplete);
}

#[test]
fn every_shorter_run_of_a_request_frame_is_incomplete() {
    for (_, frame) in requests_with_frames() {
        for arrived in 0..frame.len() {
            assert_eq!(decode_request(&frame[..arrived]), Decoded::Incomplete);
        }
    }
}

#[test]
fn every_shorter_run_of_a_response_frame_is_incomplete() {
    for (_, frame) in responses_with_frames() {
        for arrived in 0..frame.len() {
            assert_eq!(decode_response(&frame[..arrived]), Decoded::Incomplete);
        }
    }
}

#[test]
fn fewer_than_four_bytes_are_incomplete_whatever_they_are() {
    assert_eq!(decode_request(&[]), Decoded::Incomplete);
    assert_eq!(decode_request(&[0xFF]), Decoded::Incomplete);
    assert_eq!(decode_request(&[0xFF, 0x2B, 0x00]), Decoded::Incomplete);
    assert_eq!(decode_response(&[0xFF, 0xFF, 0xFF]), Decoded::Incomplete);
}

#[test]
fn server_codec_takes_a_frame_byte_by_byte() {
    for (adu, frame) in requests_with_frames() {
        let mut codec = ServerCodec::new();
        for (i, byte) in frame.iter().enumerate() {
            codec.feed(&[*byte]);
            if i + 1 < frame.len() {
                assert_eq!(codec.decode(), Ok(None));
                assert_eq!(codec.buffered(), i + 1);
            }
        }
        assert_eq!(codec.decode(), Ok(Some(adu)));
        assert_eq!(codec.buffered(), 0);
        assert_eq!(codec.decode(), Ok(None));
    }
}

#[test]
fn client_codec_takes_a_frame_byte_by_byte() {
    for (adu, frame) in responses_with_frames() {
        let mut codec = ClientCodec::default();
        for (i, byte) in frame.iter().enumerate() {
            codec.feed(&[*byte]);
            if i + 1 < frame.len() {
                assert_eq!(codec.decode(), Ok(None));
                assert_eq!(codec.buffered(), i + 1);
            }
        }
        assert_eq!(codec.decode(), Ok(Some(adu)));
        assert_eq!(codec.buffered(), 0);
    }
}

#[test]
fn server_codec_hands_out_frames_in_order() {
    let mut codec = ServerCodec::default();
    let all = requests_with_frames();
    for (_, frame) in &all {
        codec.feed(frame);
    }
    for (adu, _) in all {
        assert_eq!(codec.decode(), Ok(Some(adu)));
    }
    assert_eq!(codec.decode(), Ok(None));
}

#[test]
fn codecs_encode_after_what_is_there() {
    let mut dst = vec![0xEE];
    ServerCodec::new().encode(
        &refusal(1, FunctionCode::ReadInputRegisters, Exception::IllegalFunction),
        &mut dst,
    );
    assert_eq!(dst, vec![0xEE, 0x01, 0x84, 0x01, 0x82, 0xC0]);
    let mut dst = vec![0xEE];
    ClientCodec::new().encode(&request(1, Request::ReadInputRegisters(0, 7)), &mut dst);
    assert_eq!(dst, vec![0xEE, 0x01, 0x04, 0x00, 0x00, 0x00, 0x07, 0xB1, 0xC8]);
}

#[test]
fn bad_checksum_is_a_checksum_error() {
    let frame = [0x01, 0x04, 0x00, 0x00, 0x00, 0x07, 0xB1, 0xC9];
    assert_eq!(decode_request(&frame), Decoded::Malformed(FrameError::Checksum, 8));
    let frame = [0x01, 0x84, 0x01, 0x82, 0xC1];
    assert_eq!(decode_response(&frame), Decoded::Malformed(FrameError::Checksum, 5));
}

#[test]
fn swapped_checksum_bytes_are_a_checksum_error() {
    let frame = [0x01, 0x04, 0x00, 0x00, 0x00, 0x07, 0xC8, 0xB1];
    assert_eq!(decode_request(&frame), Decoded::Malformed(FrameError::Checksum, 8));
}

#[test]
fn codec_throws_a_frame_with_a_bad_checksum_away() {
    let mut codec = ServerCodec::new();
    codec.feed(&[0x01, 0x04, 0x00, 0x00, 0x00, 0x07, 0xB1, 0xC9]);
    codec.feed(&[0x01, 0x04, 0x00, 0x00, 0x00, 0x07, 0xB1, 0xC8]);
    assert_eq!(codec.decode(), Err(FrameError::Checksum));
    assert_eq!(codec.buffered(), 8);
    assert_eq!(codec.decode(), Ok(Some(request(1, Request::ReadInputRegisters(0, 7)))));
    let mut codec = ClientCodec::new();
    codec.feed(&[0x01, 0x84, 0x01, 0x82, 0xC1, 0x01]);
    assert_eq!(codec.decode(), Err(FrameError::Checksum));
    assert_eq!(codec.buffered(), 1);
}

#[test]
fn any_flipped_bit_before_the_checksum_is_caught() {
    for (_, frame) in requests_with_frames() {
        let end = find_request_end(&frame);
        for at in 0..frame.len() - 2 {
            for bit in 0..8 {
                let mut changed = frame.clone();
                changed[at] ^= 1 << bit;
                let out = decode_request(&changed);
                assert!(!matches!(out, Decoded::Frame(..)));
                if find_request_end(&changed) == end {
                    assert_eq!(out, Decoded::Malformed(FrameError::Checksum, frame.len()));
                }
                if at != 1 && at != 6 && at != 10 {
                    assert_eq!(out, Decoded::Malformed(FrameError::Checksum, frame.len()));
                }
            }
        }
    }
}

#[test]
fn any_flipped_bit_before_the_checksum_of_a_response_is_caught() {
    for (_, frame) in responses_with_frames() {
        let end = find_response_end(&frame);
        for at in 0..frame.len() - 2 {
            for bit in 0..8 {
                let mut changed = frame.clone();
                changed[at] ^= 1 << bit;
                let out = decode_response(&changed);
                assert!(!matches!(out, Decoded::Frame(..)));
                if find_response_end(&changed) == end {
                    assert_eq!(out, Decoded::Malformed(FrameError::Checksum, frame.len()));
                }
                if at != 1 && at != 2 {
                    assert_eq!(out, Decoded::Malformed(FrameError::Checksum, frame.len()));
                }
            }
        }
    }
}

#[test]
fn unknown_function_code_throws_all_bytes_away() {
    let frame = [0x01, 0x2B, 0x00, 0x00, 0x00, 0x00, 0x25, 0xCC];
    assert_eq!(decode_request(&frame), Decoded::Malformed(FrameError::UnsupportedFunction, 8));
    assert_eq!(
        decode_request(&frame[..4]),
        Decoded::Malformed(FrameError::UnsupportedFunction, 4)
    );
    assert_eq!(decode_response(&frame), Decoded::Malformed(FrameError::UnsupportedFunction, 8));
    assert_eq!(
        decode_response(&[0x01, 0xAB, 0x01, 0x00, 0x00]),
        Decoded::Malformed(FrameError::UnsupportedFunction, 5)
    );
    assert_eq!(
        decode_request(&[0x01, 0x84, 0x01, 0x82, 0xC0]),
        Decoded::Malformed(FrameError::UnsupportedFunction, 5)
    );
    let mut codec = ServerCodec::new();
    codec.feed(&frame);
    assert_eq!(codec.decode(), Err(FrameError::UnsupportedFunction));
    assert_eq!(codec.buffered(), 0);
}

#[test]
fn address_above_the_highest_is_refused() {
    let frame = [0xF8, 0x04, 0x00, 0x00, 0x00, 0x07, 0xA5, 0xA1];
    assert_eq!(decode_request(&frame), Decoded::Malformed(FrameError::InvalidSlave, 8));
    assert_eq!(
        decode_response(&[0xF8, 0x06, 0x00, 0x01, 0x00, 0x03, 0x8C, 0x62]),
        Decoded::Malformed(FrameError::InvalidSlave, 8)
    );
}

#[test]
fn payload_that_breaks_a_limit_is_refused() {
    let none = [0x01, 0x04, 0x00, 0x00, 0x00, 0x00, 0xF0, 0x0A];
    assert_eq!(decode_request(&none), Decoded::Malformed(FrameError::InvalidPayload, 8));
}

#[test]
fn coil_state_that_is_neither_on_nor_off_is_refused() {
    let frame = [0x01, 0x05, 0x00, 0x00, 0x12, 0x34, 0xC0, 0xBD];
    assert_eq!(decode_request(&frame), Decoded::Malformed(FrameError::InvalidPayload, 8));
    assert_eq!(decode_response(&frame), Decoded::Malformed(FrameError::InvalidPayload, 8));
}

#[test]
fn byte_count_that_does_not_fit_the_quantity_is_refused() {
    let frame = [0x01, 0x10, 0x00, 0x01, 0x00, 0x02, 0x03, 0x00, 0x0A, 0x01, 0x42, 0x26];
    assert_eq!(decode_request(&frame), Decoded::Malformed(FrameError::InvalidPayload, 12));
}

#[test]
fn odd_byte_count_of_registers_is_refused() {
    let frame = [0x01, 0x03, 0x03, 0x00, 0x01, 0x02, 0xC5, 0xDF];
    assert_eq!(decode_response(&frame), Decoded::Malformed(FrameError::InvalidPayload, 8));
}

#[test]
fn unknown_exception_code_is_refused() {
    let frame = [0x01, 0x84, 0x07, 0x02, 0xC2];
    assert_eq!(decode_response(&frame), Decoded::Malformed(FrameError::InvalidPayload, 5));
}

#[test]
fn end_of_a_request_frame_is_told_by_its_function_code() {
    assert_eq!(find_request_end(&[0x01, 0x04, 0x00]), Extent::Incomplete);
    assert_eq!(find_request_end(&[0x01, 0x04, 0x00, 0x00]), Extent::Known(8));
    assert_eq!(find_request_end(&[0x01, 0x2B, 0x00, 0x00]), Extent::Unsupported);
    assert_eq!(find_request_end(&[0x01, 0x10, 0x00, 0x01, 0x00, 0x02]), Extent::Incomplete);
    assert_eq!(find_request_end(&[0x01, 0x10, 0x00, 0x01, 0x00, 0x02, 0x04]), Extent::Known(13));
    assert_eq!(find_request_end(&[0x01, 0x0F, 0x00, 0x01, 0x00, 0x02, 0xFF]), Extent::Known(264));
    assert_eq!(
        find_request_end(&[0x01, 0x17, 0x00, 0x03, 0x00, 0x06, 0x00, 0x0E, 0x00, 0x03]),
        Extent::Incomplete
    );
    assert_eq!(
        find_request_end(&[0x01, 0x17, 0x00, 0x03, 0x00, 0x06, 0x00, 0x0E, 0x00, 0x03, 0x06]),
        Extent::Known(19)
    );
}

#[test]
fn end_of_a_response_frame_is_told_by_its_function_code() {
    assert_eq!(find_response_end(&[0x01, 0x04, 0x0E]), Extent::Incomplete);
    assert_eq!(find_response_end(&[0x01, 0x04, 0x0E, 0x00]), Extent::Known(19));
    assert_eq!(find_response_end(&[0x01, 0x01, 0x00, 0x00]), Extent::Known(5));
    assert_eq!(find_response_end(&[0x01, 0x06, 0x00, 0x00]), Extent::Known(8));
    assert_eq!(find_response_end(&[0x01, 0x10, 0x00, 0x00]), Extent::Known(8));
    assert_eq!(find_response_end(&[0x01, 0x84, 0x01, 0x82]), Extent::Known(5));
    assert_eq!(find_response_end(&[0x01, 0x80, 0x01, 0x82]), Extent::Unsupported);
    assert_eq!(find_response_end(&[0x01, 0x07, 0x01, 0x82]), Extent::Unsupported);
}

#[test]
fn request_pdus_parse_alone() {
    assert_eq!(
        parse_request_pdu(&[0x04, 0x00, 0x00, 0x00, 0x07]),
        RequestPdu::new(Request::ReadInputRegisters(0, 7))
    );
    assert_eq!(parse_request_pdu(&[0x04, 0x00, 0x00, 0x00, 0x07, 0x00]), None);
    assert_eq!(parse_request_pdu(&[0x04, 0x00, 0x00, 0x00]), None);
    assert_eq!(parse_request_pdu(&[]), None);
    assert_eq!(parse_request_pdu(&[0x04, 0x00, 0x00, 0x00, 0x7E]), None);
    assert_eq!(
        parse_request_pdu(&[0x0F, 0x00, 0x13, 0x00, 0x0A, 0x02, 0xCD, 0xFD]),
        RequestPdu::new(Request::WriteMultipleCoils(
            0x13,
            vec![true, false, true, true, false, false, true, true, true, false]
        ))
    );
    assert_eq!(parse_request_pdu(&[0x0F, 0x00, 0x13, 0x00, 0x0A, 0x01, 0xCD]), None);
    assert_eq!(parse_request_pdu(&[0x0F, 0x00, 0x13, 0x00, 0x0A, 0x02, 0xCD]), None);
}

#[test]
fn reply_pdus_parse_alone() {
    assert_eq!(
        parse_reply_pdu(&[0x04, 0x02, 0x00, 0x77]),
        ResponsePdu::new(Ok(Response::ReadInputRegisters(vec![0x77])))
    );
    assert_eq!(parse_reply_pdu(&[0x04, 0x00]), None);
    assert_eq!(parse_reply_pdu(&[0x04]), None);
    assert_eq!(parse_reply_pdu(&[0x01, 0x00]), None);
    assert_eq!(
        parse_reply_pdu(&[0x84, 0x02]),
        Some(ResponsePdu::exception(
            FunctionCode::ReadInputRegisters,
            Exception::IllegalDataAddress
        ))
    );
    assert_eq!(parse_reply_pdu(&[0x84, 0x02, 0x00]), None);
    assert_eq!(parse_reply_pdu(&[0x0F, 0x00, 0x13, 0x00, 0x00]), None);
    assert_eq!(parse_reply_pdu(&[0x0F, 0x00, 0x13, 0x07, 0xB1]), None);
    assert_eq!(
        parse_reply_pdu(&[0x0F, 0x00, 0x13, 0x07, 0xB0]),
        ResponsePdu::new(Ok(Response::WriteMultipleCoils(0x13, 1968)))
    );
}

#[test]
fn at_the_end_of_the_stream_a_whole_frame_still_decodes() {
    for (adu, frame) in requests_with_frames() {
        let taken = frame.len();
        assert_eq!(decode_request_eof(&frame), Decoded::Frame(adu, taken));
    }
    for (adu, frame) in responses_with_frames() {
        let taken = frame.len();
        assert_eq!(decode_response_eof(&frame), Decoded::Frame(adu, taken));
    }
}

#[test]
fn at_the_end_of_the_stream_no_bytes_are_the_end() {
    assert_eq!(decode_request_eof(&[]), Decoded::Incomplete);
    assert_eq!(decode_response_eof(&[]), Decoded::Incomplete);
}

#[test]
fn at_the_end_of_the_stream_an_unfinished_frame_is_truncated() {
    for (_, frame) in requests_with_frames() {
        for arrived in 1..frame.len() {
            assert_eq!(
                decode_request_eof(&frame[..arrived]),
                Decoded::Malformed(FrameError::Truncated, arrived)
            );
        }
    }
    for (_, frame) in responses_with_frames() {
        for arrived in 1..frame.len() {
            assert_eq!(
                decode_response_eof(&frame[..arrived]),
                Decoded::Malformed(FrameError::Truncated, arrived)
            );
        }
    }
}

#[test]
fn at_the_end_of_the_stream_other_errors_stay_as_they_are() {
    let frame = [0x01, 0x04, 0x00, 0x00, 0x00, 0x07, 0xB1, 0xC9];
    assert_eq!(decode_request_eof(&frame), Decoded::Malformed(FrameError::Checksum, 8));
    let frame = [0x01, 0x2B, 0x00, 0x00, 0x00];
    assert_eq!(decode_request_eof(&frame), Decoded::Malformed(FrameError::UnsupportedFunction, 5));
    let frame = [0x01, 0x84, 0x07, 0x02, 0xC2];
    assert_eq!(decode_response_eof(&frame), Decoded::Malformed(FrameError::InvalidPayload, 5));
}

#[test]
fn codecs_throw_an_unfinished_frame_away_at_the_end_of_the_stream() {
    let mut codec = ServerCodec::new();
    codec.feed(&[0x01, 0x04, 0x00, 0x00, 0x00, 0x07, 0xB1, 0xC8, 0x01, 0x04]);
    assert_eq!(codec.decode_eof(), Ok(Some(request(1, Request::ReadInputRegisters(0, 7)))));
    assert_eq!(codec.buffered(), 2);
    assert_eq!(codec.decode(), Ok(None));
    assert_eq!(codec.buffered(), 2);
    assert_eq!(codec.decode_eof(), Err(FrameError::Truncated));
    assert_eq!(codec.buffered(), 0);
    assert_eq!(codec.decode_eof(), Ok(None));
    let mut codec = ClientCodec::new();
    codec.feed(&[0x01, 0x84, 0x01, 0x82]);
    assert_eq!(codec.decode_eof(), Err(FrameError::Truncated));
    assert_eq!(codec.buffered(), 0);
    assert_eq!(codec.decode_eof(), Ok(None));
    codec.feed(&[0x01, 0x84, 0x01, 0x82, 0xC0]);
    assert_eq!(
        codec.decode_eof(),
        Ok(Some(refusal(1, FunctionCode::ReadInputRegisters, Exception::IllegalFunction)))
    );
}
