//! The RTU codec: from ADUs to the bytes of their frames and back. A server
//! decodes requests and encodes replies, a client the other way round; both
//! share the framing and the checksum.

use vstd::prelude::*;
use vstd::slice::slice_subrange;
use crate::crc::crc16;
use crate::format::{
    Decoded, Extent, FrameError, MIN_FRAME_LEN, checked_request, checked_response, coil_word,
    counted_pdu, decoded_request, decoded_response, extent_by_count, fixed_pdu, parse_reply,
    parse_request, received, reply_bytes, reply_shape, request_at_end, request_bytes,
    request_count_at, request_extent, request_frame, request_shape, response_at_end,
    response_count_at, response_extent, response_frame, sealed, trailer, word_coil,
};
use crate::frame::{
    Exception, ExceptionResponse, FunctionCode, Header, Request, RequestAdu, RequestAduView,
    RequestPdu, Response, ResponseAdu, ResponseAduView, ResponsePdu, reply_view, reply_wf,
};
use crate::theorems::{
    theorem_decoded_request_checked, theorem_decoded_response_checked, theorem_request_resumable,
    theorem_request_round_trip, theorem_response_resumable, theorem_response_round_trip,
};
use crate::wire::{
    coils_bytes, high_byte, lemma_coils_round_trip, lemma_words_round_trip, low_byte, make_word,
    push_coils, push_word, push_words, read_coils, read_words, words_bytes,
};

verus! {

/// Appends a PDU of a function code and two words.
fn push_fixed(out: &mut Vec<u8>, function: FunctionCode, first: u16, second: u16)
    ensures
        final(out)@ == old(out)@ + fixed_pdu(function, first, second),
{
    out.push(function.code());
    push_word(out, first);
    push_word(out, second);
    assert(out@ =~= old(out)@ + fixed_pdu(function, first, second));
}

/// The word that stands for the state of a coil.
pub(crate) fn coil_to_word(on: bool) -> (word: u16)
    ensures
        word == coil_word(on),
{
    if on {
        0xFF00
    } else {
        0
    }
}

/// The state of a coil that a word stands for, if it stands for one.
fn word_to_coil(word: u16) -> (on: Option<bool>)
    ensures
        on == word_coil(word),
{
    if word == 0xFF00 {
        Some(true)
    } else if word == 0 {
        Some(false)
    } else {
        None
    }
}

/// Appends the PDU of a request that respects the limits of the protocol.
fn push_request(out: &mut Vec<u8>, request: &Request)
    requires
        request@.wf(),
    ensures
        final(out)@ == old(out)@ + request_bytes(request@),
{
    match request {
        Request::ReadCoils(address, quantity) => {
            push_fixed(out, FunctionCode::ReadCoils, *address, *quantity);
        },
        Request::ReadDiscreteInputs(address, quantity) => {
            push_fixed(out, FunctionCode::ReadDiscreteInputs, *address, *quantity);
        },
        Request::WriteSingleCoil(address, on) => {
            push_fixed(out, FunctionCode::WriteSingleCoil, *address, coil_to_word(*on));
        },
        Request::WriteMultipleCoils(address, coils) => {
            push_fixed(out, FunctionCode::WriteMultipleCoils, *address, coils.len() as u16);
            out.push(((coils.len() + 7) / 8) as u8);
            push_coils(out, coils.as_slice());
            assert(out@ =~= old(out)@ + request_bytes(request@));
        },
        Request::ReadInputRegisters(address, quantity) => {
            push_fixed(out, FunctionCode::ReadInputRegisters, *address, *quantity);
        },
        Request::ReadHoldingRegisters(address, quantity) => {
            push_fixed(out, FunctionCode::ReadHoldingRegisters, *address, *quantity);
        },
        Request::WriteSingleRegister(address, word) => {
            push_fixed(out, FunctionCode::WriteSingleRegister, *address, *word);
        },
        Request::WriteMultipleRegisters(address, words) => {
            push_fixed(out, FunctionCode::WriteMultipleRegisters, *address, words.len() as u16);
            out.push((2 * words.len()) as u8);
            push_words(out, words.as_slice());
            assert(out@ =~= old(out)@ + request_bytes(request@));
        },
        Request::ReadWriteMultipleRegisters(read_address, quantity, write_address, words) => {
            push_fixed(out, FunctionCode::ReadWriteMultipleRegisters, *read_address, *quantity);
            push_word(out, *write_address);
            push_word(out, words.len() as u16);
            out.push((2 * words.len()) as u8);
            push_words(out, words.as_slice());
            assert(out@ =~= old(out)@ + request_bytes(request@));
        },
    }
}

/// Appends a PDU of a function code, a byte count and the bytes of a run of
/// coils.
fn push_counted_coils(out: &mut Vec<u8>, function: FunctionCode, coils: &Vec<bool>)
    requires
        coils@.len() <= 2000,
    ensures
        final(out)@ == old(out)@ + counted_pdu(function, coils_bytes(coils@)),
{
    proof {
        lemma_coils_round_trip(coils@);
    }
    out.push(function.code());
    out.push(((coils.len() + 7) / 8) as u8);
    push_coils(out, coils.as_slice());
    assert(out@ =~= old(out)@ + counted_pdu(function, coils_bytes(coils@)));
}

/// Appends a PDU of a function code, a byte count and the bytes of a run of
/// words.
fn push_counted_words(out: &mut Vec<u8>, function: FunctionCode, words: &Vec<u16>)
    requires
        words@.len() <= 125,
    ensures
        final(out)@ == old(out)@ + counted_pdu(function, words_bytes(words@)),
{
    proof {
        lemma_words_round_trip(words@);
    }
    out.push(function.code());
    out.push((2 * words.len()) as u8);
    push_words(out, words.as_slice());
    assert(out@ =~= old(out)@ + counted_pdu(function, words_bytes(words@)));
}

/// Appends the PDU of a reply that respects the limits of the protocol.
fn push_reply(out: &mut Vec<u8>, reply: &Result<Response, ExceptionResponse>)
    requires
        reply_wf(reply_view(*reply)),
    ensures
        final(out)@ == old(out)@ + reply_bytes(reply_view(*reply)),
{
    match reply {
        Ok(Response::ReadCoils(coils)) => {
            push_counted_coils(out, FunctionCode::ReadCoils, coils);
        },
        Ok(Response::ReadDiscreteInputs(coils)) => {
            push_counted_coils(out, FunctionCode::ReadDiscreteInputs, coils);
        },
        Ok(Response::WriteSingleCoil(address, on)) => {
            push_fixed(out, FunctionCode::WriteSingleCoil, *address, coil_to_word(*on));
        },
        Ok(Response::WriteMultipleCoils(address, quantity)) => {
            push_fixed(out, FunctionCode::WriteMultipleCoils, *address, *quantity);
        },
        Ok(Response::ReadInputRegisters(words)) => {
            push_counted_words(out, FunctionCode::ReadInputRegisters, words);
        },
        Ok(Response::ReadHoldingRegisters(words)) => {
            push_counted_words(out, FunctionCode::ReadHoldingRegisters, words);
        },
        Ok(Response::WriteSingleRegister(address, word)) => {
            push_fixed(out, FunctionCode::WriteSingleRegister, *address, *word);
        },
        Ok(Response::WriteMultipleRegisters(address, quantity)) => {
            push_fixed(out, FunctionCode::WriteMultipleRegisters, *address, *quantity);
        },
        Ok(Response::ReadWriteMultipleRegisters(words)) => {
            push_counted_words(out, FunctionCode::ReadWriteMultipleRegisters, words);
        },
        Err(refusal) => {
            out.push(refusal.function.code() + 0x80);
            out.push(refusal.exception.code());
            assert(out@ =~= old(out)@ + reply_bytes(reply_view(*reply)));
        },
    }
}

/// Closes a frame: appends the checksum of the bytes of `out`, low byte
/// first.
fn push_trailer(out: &mut Vec<u8>)
    ensures
        final(out)@ == old(out)@ + trailer(old(out)@),
{
    let crc = crc16(out.as_slice());
    out.push(low_byte(crc));
    out.push(high_byte(crc));
    assert(out@ =~= old(out)@ + trailer(old(out)@));
}

/// The frame of a request ADU.
pub fn encode_request(adu: &RequestAdu) -> (bytes: Vec<u8>)
    ensures
        bytes@ == request_frame(adu@),
{
    let mut out: Vec<u8> = Vec::new();
    out.push(adu.hdr.slave_id());
    push_request(&mut out, adu.pdu.request());
    assert(out@ =~= seq![adu@.slave_id] + request_bytes(adu@.request));
    push_trailer(&mut out);
    out
}

/// The frame of a response ADU.
pub fn encode_response(adu: &ResponseAdu) -> (bytes: Vec<u8>)
    ensures
        bytes@ == response_frame(adu@),
{
    let mut out: Vec<u8> = Vec::new();
    out.push(adu.hdr.slave_id());
    push_reply(&mut out, adu.pdu.reply());
    assert(out@ =~= seq![adu@.slave_id] + reply_bytes(adu@.reply));
    push_trailer(&mut out);
    out
}

/// The index in a request frame of the byte that counts the bytes of data
/// after it, if the function code has one.
fn request_count_index(function: FunctionCode) -> (at: Option<usize>)
    ensures
        at == request_count_at(function),
{
    match function {
        FunctionCode::WriteMultipleCoils | FunctionCode::WriteMultipleRegisters => Some(6),
        FunctionCode::ReadWriteMultipleRegisters => Some(10),
        _ => None,
    }
}

/// The index in a response frame of the byte that counts the bytes of data
/// after it, if the function code has one.
fn response_count_index(function: FunctionCode) -> (at: Option<usize>)
    ensures
        at == response_count_at(function),
{
    match function {
        FunctionCode::ReadCoils
        | FunctionCode::ReadDiscreteInputs
        | FunctionCode::ReadHoldingRegisters
        | FunctionCode::ReadInputRegisters
        | FunctionCode::ReadWriteMultipleRegisters => Some(2),
        _ => None,
    }
}

/// Where a frame ends whose length is fixed, or is told by the byte at
/// `count_at`.
fn find_end_by_count(buf: &[u8], count_at: Option<usize>) -> (extent: Extent)
    requires
        count_at matches Some(at) ==> at <= 10,
    ensures
        extent == extent_by_count(buf@, count_at),
{
    match count_at {
        None => Extent::Known(8),
        Some(at) => if buf.len() > at {
            Extent::Known(at + 3 + buf[at] as usize)
        } else {
            Extent::Incomplete
        },
    }
}

/// Where the request frame at the start of a stream ends.
pub fn find_request_end(buf: &[u8]) -> (extent: Extent)
    ensures
        extent == request_extent(buf@),
{
    if buf.len() < MIN_FRAME_LEN {
        return Extent::Incomplete;
    }
    match FunctionCode::from_code(buf[1]) {
        None => Extent::Unsupported,
        Some(function) => find_end_by_count(buf, request_count_index(function)),
    }
}

/// Where the response frame at the start of a stream ends.
pub fn find_response_end(buf: &[u8]) -> (extent: Extent)
    ensures
        extent == response_extent(buf@),
{
    if buf.len() < MIN_FRAME_LEN {
        return Extent::Incomplete;
    }
    if buf[1] >= 0x80 {
        match FunctionCode::from_code(buf[1] - 0x80) {
            None => Extent::Unsupported,
            Some(_) => Extent::Known(5),
        }
    } else {
        match FunctionCode::from_code(buf[1]) {
            None => Extent::Unsupported,
            Some(function) => find_end_by_count(buf, response_count_index(function)),
        }
    }
}

/// The bytes of a run from index `from` on.
fn tail(bytes: &[u8], from: usize) -> (rest: &[u8])
    requires
        from <= bytes.len(),
    ensures
        rest@ == bytes@.skip(from as int),
{
    slice_subrange(bytes, from, bytes.len())
}

/// The request whose layout a PDU has, whatever its counts.
fn read_request_shape(pdu: &[u8]) -> (shape: Option<Request>)
    ensures
        match shape {
            Some(request) => request_shape(pdu@) == Some(request@),
            None => request_shape(pdu@) is None,
        },
{
    if pdu.len() < 5 {
        return None;
    }
    let first: u16 = make_word(pdu[1], pdu[2]);
    let second: u16 = make_word(pdu[3], pdu[4]);
    let fixed: bool = pdu.len() == 5;
    match FunctionCode::from_code(pdu[0]) {
        None => None,
        Some(FunctionCode::ReadCoils) => if fixed {
            Some(Request::ReadCoils(first, second))
        } else {
            None
        },
        Some(FunctionCode::ReadDiscreteInputs) => if fixed {
            Some(Request::ReadDiscreteInputs(first, second))
        } else {
            None
        },
        Some(FunctionCode::ReadHoldingRegisters) => if fixed {
            Some(Request::ReadHoldingRegisters(first, second))
        } else {
            None
        },
        Some(FunctionCode::ReadInputRegisters) => if fixed {
            Some(Request::ReadInputRegisters(first, second))
        } else {
            None
        },
        Some(FunctionCode::WriteSingleCoil) => if fixed {
            match word_to_coil(second) {
                Some(on) => Some(Request::WriteSingleCoil(first, on)),
                None => None,
            }
        } else {
            None
        },
        Some(FunctionCode::WriteSingleRegister) => if fixed {
            Some(Request::WriteSingleRegister(first, second))
        } else {
            None
        },
        Some(FunctionCode::WriteMultipleCoils) => {
            if pdu.len() >= 6 && pdu.len() == 6 + pdu[5] as usize && pdu[5] as usize == (
            second as usize + 7) / 8 {
                Some(Request::WriteMultipleCoils(first, read_coils(tail(pdu, 6), second as usize)))
            } else {
                None
            }
        },
        Some(FunctionCode::WriteMultipleRegisters) => {
            if pdu.len() >= 6 && pdu.len() == 6 + pdu[5] as usize && pdu[5] as usize == 2 * (
            second as usize) {
                Some(Request::WriteMultipleRegisters(first, read_words(tail(pdu, 6))))
            } else {
                None
            }
        },
        Some(FunctionCode::ReadWriteMultipleRegisters) => {
            if pdu.len() >= 10 && pdu.len() == 10 + pdu[9] as usize && pdu[9] as usize == 2 * (
            make_word(pdu[7], pdu[8]) as usize) {
                Some(
                    Request::ReadWriteMultipleRegisters(
                        first,
                        second,
                        make_word(pdu[5], pdu[6]),
                        read_words(tail(pdu, 10)),
                    ),
                )
            } else {
                None
            }
        },
    }
}

/// The request that a PDU holds, if it holds one.
pub fn parse_request_pdu(pdu: &[u8]) -> (parsed: Option<RequestPdu>)
    ensures
        match parsed {
            Some(request) => parse_request(pdu@) == Some(request@),
            None => parse_request(pdu@) is None,
        },
{
    match read_request_shape(pdu) {
        Some(request) => RequestPdu::new(request),
        None => None,
    }
}

/// The reply whose layout a PDU has, whatever its counts.
fn read_reply_shape(pdu: &[u8]) -> (shape: Option<Result<Response, ExceptionResponse>>)
    ensures
        match shape {
            Some(reply) => reply_shape(pdu@) == Some(reply_view(reply)),
            None => reply_shape(pdu@) is None,
        },
{
    if pdu.len() < 2 {
        return None;
    }
    if pdu[0] >= 0x80 {
        return match (FunctionCode::from_code(pdu[0] - 0x80), Exception::from_code(pdu[1])) {
            (Some(function), Some(exception)) => if pdu.len() == 2 {
                Some(Err(ExceptionResponse { function, exception }))
            } else {
                None
            },
            _ => None,
        };
    }
    let counted: bool = pdu.len() == 2 + pdu[1] as usize;
    let even: bool = pdu[1] % 2 == 0;
    let fixed: bool = pdu.len() == 5;
    match FunctionCode::from_code(pdu[0]) {
        None => None,
        Some(FunctionCode::ReadCoils) => if counted {
            Some(Ok(Response::ReadCoils(read_coils(tail(pdu, 2), 8 * (pdu[1] as usize)))))
        } else {
            None
        },
        Some(FunctionCode::ReadDiscreteInputs) => if counted {
            Some(Ok(Response::ReadDiscreteInputs(read_coils(tail(pdu, 2), 8 * (pdu[1] as usize)))))
        } else {
            None
        },
        Some(FunctionCode::ReadHoldingRegisters) => if counted && even {
            Some(Ok(Response::ReadHoldingRegisters(read_words(tail(pdu, 2)))))
        } else {
            None
        },
        Some(FunctionCode::ReadInputRegisters) => if counted && even {
            Some(Ok(Response::ReadInputRegisters(read_words(tail(pdu, 2)))))
        } else {
            None
        },
        Some(FunctionCode::ReadWriteMultipleRegisters) => if counted && even {
            Some(Ok(Response::ReadWriteMultipleRegisters(read_words(tail(pdu, 2)))))
        } else {
            None
        },
        Some(FunctionCode::WriteSingleCoil) => if fixed {
            match word_to_coil(make_word(pdu[3], pdu[4])) {
                Some(on) => Some(Ok(Response::WriteSingleCoil(make_word(pdu[1], pdu[2]), on))),
                None => None,
            }
        } else {
            None
        },
        Some(FunctionCode::WriteSingleRegister) => if fixed {
            Some(
                Ok(
                    Response::WriteSingleRegister(
                        make_word(pdu[1], pdu[2]),
                        make_word(pdu[3], pdu[4]),
                    ),
                ),
            )
        } else {
            None
        },
        Some(FunctionCode::WriteMultipleCoils) => if fixed {
            Some(
                Ok(
                    Response::WriteMultipleCoils(
                        make_word(pdu[1], pdu[2]),
                        make_word(pdu[3], pdu[4]),
                    ),
                ),
            )
        } else {
            None
        },
        Some(FunctionCode::WriteMultipleRegisters) => if fixed {
            Some(
                Ok(
                    Response::WriteMultipleRegisters(
                        make_word(pdu[1], pdu[2]),
                        make_word(pdu[3], pdu[4]),
                    ),
                ),
            )
        } else {
            None
        },
    }
}

/// The reply that a PDU holds, if it holds one.
pub fn parse_reply_pdu(pdu: &[u8]) -> (parsed: Option<ResponsePdu>)
    ensures
        match parsed {
            Some(reply) => parse_reply(pdu@) == Some(reply@),
            None => parse_reply(pdu@) is None,
        },
{
    match read_reply_shape(pdu) {
        Some(reply) => ResponsePdu::new(reply),
        None => None,
    }
}

/// Whether the last two bytes of a run are the checksum of the others.
fn is_sealed(bytes: &[u8]) -> (ok: bool)
    ensures
        ok == sealed(bytes@),
{
    let n: usize = bytes.len();
    if n < 2 {
        return false;
    }
    let crc = crc16(slice_subrange(bytes, 0, n - 2));
    bytes[n - 2] == low_byte(crc) && bytes[n - 1] == high_byte(crc)
}

/// What a run of at least three bytes, taken for one whole request frame,
/// holds.
fn check_request(bytes: &[u8]) -> (out: Decoded<RequestAdu>)
    requires
        bytes.len() >= 3,
    ensures
        out@ == checked_request(bytes@),
{
    let n: usize = bytes.len();
    if !is_sealed(bytes) {
        return Decoded::Malformed(FrameError::Checksum, n);
    }
    match Header::new(bytes[0]) {
        None => Decoded::Malformed(FrameError::InvalidSlave, n),
        Some(hdr) => match parse_request_pdu(slice_subrange(bytes, 1, n - 2)) {
            Some(pdu) => Decoded::Frame(RequestAdu { hdr, pdu }, n),
            None => Decoded::Malformed(FrameError::InvalidPayload, n),
        },
    }
}

/// What a run of at least three bytes, taken for one whole response frame,
/// holds.
fn check_response(bytes: &[u8]) -> (out: Decoded<ResponseAdu>)
    requires
        bytes.len() >= 3,
    ensures
        out@ == checked_response(bytes@),
{
    let n: usize = bytes.len();
    if !is_sealed(bytes) {
        return Decoded::Malformed(FrameError::Checksum, n);
    }
    match Header::new(bytes[0]) {
        None => Decoded::Malformed(FrameError::InvalidSlave, n),
        Some(hdr) => match parse_reply_pdu(slice_subrange(bytes, 1, n - 2)) {
            Some(pdu) => Decoded::Frame(ResponseAdu { hdr, pdu }, n),
            None => Decoded::Malformed(FrameError::InvalidPayload, n),
        },
    }
}

/// Decodes the start of a stream of bytes as a server does: into a request
/// ADU, a report that more bytes are needed, or an error with the number of
/// bytes to throw away.
pub fn decode_request(buf: &[u8]) -> (out: Decoded<RequestAdu>)
    ensures
        out@ == decoded_request(buf@),
{
    match find_request_end(buf) {
        Extent::Incomplete => Decoded::Incomplete,
        Extent::Unsupported => Decoded::Malformed(FrameError::UnsupportedFunction, buf.len()),
        Extent::Known(n) => if buf.len() < n {
            Decoded::Incomplete
        } else {
            check_request(slice_subrange(buf, 0, n))
        },
    }
}

/// Decodes the start of a stream of bytes as a client does: into a response
/// ADU, a report that more bytes are needed, or an error with the number of
/// bytes to throw away.
pub fn decode_response(buf: &[u8]) -> (out: Decoded<ResponseAdu>)
    ensures
        out@ == decoded_response(buf@),
{
    match find_response_end(buf) {
        Extent::Incomplete => Decoded::Incomplete,
        Extent::Unsupported => Decoded::Malformed(FrameError::UnsupportedFunction, buf.len()),
        Extent::Known(n) => if buf.len() < n {
            Decoded::Incomplete
        } else {
            check_response(slice_subrange(buf, 0, n))
        },
    }
}

/// Decodes the last bytes of a stream as a server does: as `decode_request`
/// does, but bytes that are no whole frame are a truncated frame, since no
/// more will come. `Incomplete` is left for a stream with no bytes left.
pub fn decode_request_eof(buf: &[u8]) -> (out: Decoded<RequestAdu>)
    ensures
        out@ == request_at_end(buf@),
{
    match decode_request(buf) {
        Decoded::Incomplete => if buf.len() == 0 {
            Decoded::Incomplete
        } else {
            Decoded::Malformed(FrameError::Truncated, buf.len())
        },
        other => other,
    }
}

/// Decodes the last bytes of a stream as a client does: as `decode_response`
/// does, but bytes that are no whole frame are a truncated frame, since no
/// more will come. `Incomplete` is left for a stream with no bytes left.
pub fn decode_response_eof(buf: &[u8]) -> (out: Decoded<ResponseAdu>)
    ensures
        out@ == response_at_end(buf@),
{
    match decode_response(buf) {
        Decoded::Incomplete => if buf.len() == 0 {
            Decoded::Incomplete
        } else {
            Decoded::Malformed(FrameError::Truncated, buf.len())
        },
        other => other,
    }
}

/// Takes the first `taken` bytes off a buffer.
fn consume(buffer: &mut Vec<u8>, taken: usize)
    requires
        taken <= old(buffer)@.len(),
    ensures
        final(buffer)@ == old(buffer)@.skip(taken as int),
{
    let rest = buffer.split_off(taken);
    *buffer = rest;
}

/// Appends a run of bytes to a buffer.
fn append(buffer: &mut Vec<u8>, bytes: &[u8])
    ensures
        final(buffer)@ == old(buffer)@ + bytes@,
{
    let mut i: usize = 0;
    while i < bytes.len()
        invariant
            i <= bytes.len(),
            buffer@ == old(buffer)@ + bytes@.take(i as int),
        decreases bytes.len() - i,
    {
        buffer.push(bytes[i]);
        assert(buffer@ =~= old(buffer)@ + bytes@.take(i + 1));
        i = i + 1;
    }
    assert(bytes@.take(i as int) =~= bytes@);
}

/// What a codec hands out after it has looked at its buffer, given what the
/// start of the buffer holds: the ADU of a frame, nothing while the frame is
/// incomplete, or the error.
pub open spec fn handed_out<T>(decoded: Decoded<T>) -> Result<Option<T>, FrameError> {
    match decoded {
        Decoded::Incomplete => Ok(None),
        Decoded::Frame(adu, _) => Ok(Some(adu)),
        Decoded::Malformed(error, _) => Err(error),
    }
}

/// What is left of a buffer after a codec has looked at it, given what the
/// start of the buffer holds: all of it while the frame is incomplete, else
/// all but the bytes that were taken.
pub open spec fn left_over<T>(buffer: Seq<u8>, decoded: Decoded<T>) -> Seq<u8> {
    match decoded {
        Decoded::Incomplete => buffer,
        Decoded::Frame(_, taken) => buffer.skip(taken as int),
        Decoded::Malformed(_, taken) => buffer.skip(taken as int),
    }
}

/// The mathematical value of what a server's codec hands out.
pub open spec fn request_view(out: Result<Option<RequestAdu>, FrameError>) -> Result<
    Option<RequestAduView>,
    FrameError,
> {
    match out {
        Ok(Some(adu)) => Ok(Some(adu@)),
        Ok(None) => Ok(None),
        Err(error) => Err(error),
    }
}

/// The mathematical value of what a client's codec hands out.
pub open spec fn response_view(out: Result<Option<ResponseAdu>, FrameError>) -> Result<
    Option<ResponseAduView>,
    FrameError,
> {
    match out {
        Ok(Some(adu)) => Ok(Some(adu@)),
        Ok(None) => Ok(None),
        Err(error) => Err(error),
    }
}

/// The codec of a server: it keeps the bytes that have arrived and are not
/// yet decoded, decodes requests out of them, and encodes replies.
#[derive(Debug)]
pub struct ServerCodec {
    buffer: Vec<u8>,
}

impl View for ServerCodec {
    type V = Seq<u8>;

    /// The bytes that have arrived and are not yet decoded.
    closed spec fn view(&self) -> Seq<u8> {
        self.buffer@
    }
}

impl ServerCodec {
    /// A codec with no bytes.
    pub fn new() -> (codec: ServerCodec)
        ensures
            codec@ == Seq::<u8>::empty(),
    {
        ServerCodec { buffer: Vec::new() }
    }

    /// The number of bytes that have arrived and are not yet decoded.
    pub fn buffered(&self) -> (n: usize)
        ensures
            n == self@.len(),
    {
        self.buffer.len()
    }

    /// Takes in bytes that have arrived.
    pub fn feed(&mut self, bytes: &[u8])
        ensures
            final(self)@ == old(self)@ + bytes@,
    {
        append(&mut self.buffer, bytes);
    }

    /// Decodes the start of the buffer: hands out the request ADU of a whole
    /// frame and takes the frame off the buffer, hands out nothing and
    /// leaves the buffer as it is while the frame is incomplete, or hands
    /// out the error and throws the malformed bytes away.
    pub fn decode(&mut self) -> (out: Result<Option<RequestAdu>, FrameError>)
        ensures
            request_view(out) == handed_out(decoded_request(old(self)@)),
            final(self)@ == left_over(old(self)@, decoded_request(old(self)@)),
    {
        let held: usize = self.buffer.len();
        proof {
            theorem_decoded_request_checked(self@);
        }
        match decode_request(self.buffer.as_slice()) {
            Decoded::Incomplete => Ok(None),
            Decoded::Frame(adu, taken) => {
                consume(&mut self.buffer, taken);
                Ok(Some(adu))
            },
            Decoded::Malformed(error, taken) => {
                consume(&mut self.buffer, taken);
                Err(error)
            },
        }
    }

    /// Decodes the start of the buffer once the stream has ended: as `decode`
    /// does, but bytes that are no whole frame are thrown away as a
    /// truncated frame. Nothing is handed out only when no bytes are left.
    pub fn decode_eof(&mut self) -> (out: Result<Option<RequestAdu>, FrameError>)
        ensures
            request_view(out) == handed_out(request_at_end(old(self)@)),
            final(self)@ == left_over(old(self)@, request_at_end(old(self)@)),
    {
        let held: usize = self.buffer.len();
        proof {
            theorem_decoded_request_checked(self@);
        }
        match decode_request_eof(self.buffer.as_slice()) {
            Decoded::Incomplete => Ok(None),
            Decoded::Frame(adu, taken) => {
                consume(&mut self.buffer, taken);
                Ok(Some(adu))
            },
            Decoded::Malformed(error, taken) => {
                consume(&mut self.buffer, taken);
                Err(error)
            },
        }
    }

    /// Appends the frame of a reply to `dst`.
    pub fn encode(&self, adu: &ResponseAdu, dst: &mut Vec<u8>)
        ensures
            final(dst)@ == old(dst)@ + response_frame(adu@),
    {
        let bytes = encode_response(adu);
        append(dst, bytes.as_slice());
    }
}

impl Default for ServerCodec {
    fn default() -> (codec: ServerCodec)
        ensures
            codec@ == Seq::<u8>::empty(),
    {
        ServerCodec::new()
    }
}

/// The codec of a client: it keeps the bytes that have arrived and are not
/// yet decoded, decodes replies out of them, and encodes requests.
#[derive(Debug)]
pub struct ClientCodec {
    buffer: Vec<u8>,
}

impl View for ClientCodec {
    type V = Seq<u8>;

    /// The bytes that have arrived and are not yet decoded.
    closed spec fn view(&self) -> Seq<u8> {
        self.buffer@
    }
}

impl ClientCodec {
    /// A codec with no bytes.
    pub fn new() -> (codec: ClientCodec)
        ensures
            codec@ == Seq::<u8>::empty(),
    {
        ClientCodec { buffer: Vec::new() }
    }

    /// The number of bytes that have arrived and are not yet decoded.
    pub fn buffered(&self) -> (n: usize)
        ensures
            n == self@.len(),
    {
        self.buffer.len()
    }

    /// Takes in bytes that have arrived.
    pub fn feed(&mut self, bytes: &[u8])
        ensures
            final(self)@ == old(self)@ + bytes@,
    {
        append(&mut self.buffer, bytes);
    }

    /// Decodes the start of the buffer: hands out the response ADU of a
    /// whole frame and takes the frame off the buffer, hands out nothing and
    /// leaves the buffer as it is while the frame is incomplete, or hands
    /// out the error and throws the malformed bytes away.
    pub fn decode(&mut self) -> (out: Result<Option<ResponseAdu>, FrameError>)
        ensures
            response_view(out) == handed_out(decoded_response(old(self)@)),
            final(self)@ == left_over(old(self)@, decoded_response(old(self)@)),
    {
        let held: usize = self.buffer.len();
        proof {
            theorem_decoded_response_checked(self@);
        }
        match decode_response(self.buffer.as_slice()) {
            Decoded::Incomplete => Ok(None),
            Decoded::Frame(adu, taken) => {
                consume(&mut self.buffer, taken);
                Ok(Some(adu))
            },
            Decoded::Malformed(error, taken) => {
                consume(&mut self.buffer, taken);
                Err(error)
            },
        }
    }

    /// Decodes the start of the buffer once the stream has ended: as `decode`
    /// does, but bytes that are no whole frame are thrown away as a
    /// truncated frame. Nothing is handed out only when no bytes are left.
    pub fn decode_eof(&mut self) -> (out: Result<Option<ResponseAdu>, FrameError>)
        ensures
            response_view(out) == handed_out(response_at_end(old(self)@)),
            final(self)@ == left_over(old(self)@, response_at_end(old(self)@)),
    {
        let held: usize = self.buffer.len();
        proof {
            theorem_decoded_response_checked(self@);
        }
        match decode_response_eof(self.buffer.as_slice()) {
            Decoded::Incomplete => Ok(None),
            Decoded::Frame(adu, taken) => {
                consume(&mut self.buffer, taken);
                Ok(Some(adu))
            },
            Decoded::Malformed(error, taken) => {
                consume(&mut self.buffer, taken);
                Err(error)
            },
        }
    }

    /// Appends the frame of a request to `dst`.
    pub fn encode(&self, adu: &RequestAdu, dst: &mut Vec<u8>)
        ensures
            final(dst)@ == old(dst)@ + request_frame(adu@),
    {
        let bytes = encode_request(adu);
        append(dst, bytes.as_slice());
    }
}

impl Default for ClientCodec {
    fn default() -> (codec: ClientCodec)
        ensures
            codec@ == Seq::<u8>::empty(),
    {
        ClientCodec::new()
    }
}

/// A codec can be fed a request frame in pieces: while any byte of the frame
/// is missing it hands out nothing and keeps what has arrived, and with the
/// last byte it hands out the request ADU and keeps nothing.
pub proof fn theorem_request_fed_in_pieces(adu: RequestAduView, arrived: int)
    requires
        adu.wf(),
        0 <= arrived <= request_frame(adu).len(),
    ensures
        ({
            let held = request_frame(adu).take(arrived);
            if arrived < request_frame(adu).len() {
                &&& handed_out(decoded_request(held)) == Ok::<Option<RequestAduView>, FrameError>(None)
                &&& left_over(held, decoded_request(held)) == held
            } else {
                &&& handed_out(decoded_request(held)) == Ok::<Option<RequestAduView>, FrameError>(
                    Some(adu),
                )
                &&& left_over(held, decoded_request(held)) == Seq::<u8>::empty()
            }
        }),
{
    let whole = request_frame(adu);
    if arrived < whole.len() {
        theorem_request_resumable(adu, arrived);
    } else {
        assert(whole.take(arrived) =~= whole);
        theorem_request_round_trip(adu, whole);
        assert(whole.skip(whole.len() as int) =~= Seq::<u8>::empty());
    }
}

/// A codec can be fed a response frame in pieces: while any byte of the
/// frame is missing it hands out nothing and keeps what has arrived, and with
/// the last byte it hands out the response ADU, as it looks once it has gone
/// over the wire, and keeps nothing.
pub proof fn theorem_response_fed_in_pieces(adu: ResponseAduView, arrived: int)
    requires
        adu.wf(),
        0 <= arrived <= response_frame(adu).len(),
    ensures
        ({
            let held = response_frame(adu).take(arrived);
            if arrived < response_frame(adu).len() {
                &&& handed_out(decoded_response(held)) == Ok::<Option<ResponseAduView>, FrameError>(
                    None,
                )
                &&& left_over(held, decoded_response(held)) == held
            } else {
                &&& handed_out(decoded_response(held)) == Ok::<Option<ResponseAduView>, FrameError>(
                    Some(ResponseAduView { slave_id: adu.slave_id, reply: received(adu.reply) }),
                )
                &&& left_over(held, decoded_response(held)) == Seq::<u8>::empty()
            }
        }),
{
    let whole = response_frame(adu);
    if arrived < whole.len() {
        theorem_response_resumable(adu, arrived);
    } else {
        assert(whole.take(arrived) =~= whole);
        theorem_response_round_trip(adu, whole);
        assert(whole.skip(whole.len() as int) =~= Seq::<u8>::empty());
    }
}

} // verus!
