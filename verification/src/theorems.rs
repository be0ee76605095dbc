//! What the wire format guarantees: a frame decodes to the ADU that it was
//! made from, no shorter run of its bytes decodes to anything, and a frame
//! with one byte changed is caught by its checksum.

use vstd::prelude::*;
use crate::crc::{checksum, lemma_checksum_detects_byte_change};
use crate::format::{
    Decoded, Extent, FrameError, coil_word, counted_pdu, decoded_request, decoded_response,
    fixed_pdu, frame, parse_reply, parse_request, pdu_of, received, reply_bytes, reply_shape,
    request_bytes, request_count_at, request_extent, request_frame, request_shape,
    response_count_at, response_extent, response_frame, sealed,
};
use crate::frame::{
    ExceptionResponse, FunctionCode, ReplyView, RequestAduView, RequestView, ResponseAduView,
    ResponseView, SlaveId, reply_function, reply_wf,
};
use crate::wire::{
    coil_bytes, coils_bytes, hi, lemma_coils_round_trip, lemma_padded, lemma_word_round_trip,
    lemma_words_round_trip, lo, word_of, words_bytes,
};

verus! {

/// Whether two runs of bytes agree at every index that both have.
spec fn agree(a: Seq<u8>, b: Seq<u8>) -> bool {
    forall|i: int| 0 <= i < a.len() && i < b.len() ==> a[i] == b[i]
}

/// The parts of a frame: the device address, then the PDU, then a checksum
/// that matches.
pub proof fn lemma_frame_parts(slave_id: SlaveId, pdu: Seq<u8>)
    ensures
        frame(slave_id, pdu).len() == pdu.len() + 3,
        frame(slave_id, pdu)[0] == slave_id,
        forall|i: int| 0 <= i < pdu.len() ==> frame(slave_id, pdu)[i + 1] == pdu[i],
        sealed(frame(slave_id, pdu)),
        pdu_of(frame(slave_id, pdu)) == pdu,
        frame(slave_id, pdu).take(pdu.len() as int + 1) == seq![slave_id] + pdu,
{
    let body = seq![slave_id] + pdu;
    let whole = frame(slave_id, pdu);
    assert(whole.take(whole.len() - 2) =~= body);
    assert(pdu_of(whole) =~= pdu);
}

/// The layout of a PDU of a function code and two words.
proof fn lemma_fixed_pdu(function: FunctionCode, first: u16, second: u16)
    ensures
        fixed_pdu(function, first, second).len() == 5,
        fixed_pdu(function, first, second)[0] == function.spec_code(),
        word_of(fixed_pdu(function, first, second)[1], fixed_pdu(function, first, second)[2])
            == first,
        word_of(fixed_pdu(function, first, second)[3], fixed_pdu(function, first, second)[4])
            == second,
{
    lemma_word_round_trip(first, 0, 0);
    lemma_word_round_trip(second, 0, 0);
}

/// The layout of a PDU of a function code, a byte count and that many bytes.
proof fn lemma_counted_pdu(function: FunctionCode, data: Seq<u8>)
    requires
        data.len() <= 255,
    ensures
        counted_pdu(function, data).len() == 2 + data.len(),
        counted_pdu(function, data)[0] == function.spec_code(),
        counted_pdu(function, data)[1] == data.len(),
        counted_pdu(function, data).skip(2) == data,
{
    assert(counted_pdu(function, data).skip(2) =~= data);
}

/// The layout of a PDU of a function code, two words, a byte count and
/// data.
proof fn lemma_write_pdu(function: FunctionCode, first: u16, second: u16, count: u8, data: Seq<u8>)
    ensures
        ({
            let pdu = fixed_pdu(function, first, second) + seq![count] + data;
            &&& pdu.len() == 6 + data.len()
            &&& pdu[0] == function.spec_code()
            &&& word_of(pdu[1], pdu[2]) == first
            &&& word_of(pdu[3], pdu[4]) == second
            &&& pdu[5] == count
            &&& pdu.skip(6) == data
        }),
{
    let head = fixed_pdu(function, first, second);
    let pdu = head + seq![count] + data;
    lemma_fixed_pdu(function, first, second);
    assert(pdu[0] == head[0] && pdu[1] == head[1] && pdu[2] == head[2] && pdu[3] == head[3]
        && pdu[4] == head[4]);
    assert(pdu.skip(6) =~= data);
}

/// A request that sets coils is the request that its PDU holds.
proof fn lemma_parse_write_coils(address: u16, coils: Seq<bool>)
    requires
        RequestView::WriteMultipleCoils(address, coils).wf(),
    ensures
        ({
            let pdu = request_bytes(RequestView::WriteMultipleCoils(address, coils));
            &&& request_shape(pdu) == Some(RequestView::WriteMultipleCoils(address, coils))
            &&& 7 <= pdu.len() <= 252
            &&& pdu.len() == 6 + pdu[5]
            &&& pdu[0] == FunctionCode::WriteMultipleCoils.spec_code()
        }),
{
    lemma_coils_round_trip(coils);
    lemma_write_pdu(
        FunctionCode::WriteMultipleCoils,
        address,
        coils.len() as u16,
        coil_bytes(coils.len() as int) as u8,
        coils_bytes(coils),
    );
}

/// A request that sets registers is the request that its PDU holds.
proof fn lemma_parse_write_words(address: u16, words: Seq<u16>)
    requires
        RequestView::WriteMultipleRegisters(address, words).wf(),
    ensures
        ({
            let pdu = request_bytes(RequestView::WriteMultipleRegisters(address, words));
            &&& request_shape(pdu) == Some(RequestView::WriteMultipleRegisters(address, words))
            &&& 8 <= pdu.len() <= 252
            &&& pdu.len() == 6 + pdu[5]
            &&& pdu[0] == FunctionCode::WriteMultipleRegisters.spec_code()
        }),
{
    lemma_words_round_trip(words);
    lemma_write_pdu(
        FunctionCode::WriteMultipleRegisters,
        address,
        words.len() as u16,
        (2 * words.len()) as u8,
        words_bytes(words),
    );
}

/// A request that reads and sets registers is the request that its PDU
/// holds.
proof fn lemma_parse_read_write(
    read_address: u16,
    quantity: u16,
    write_address: u16,
    words: Seq<u16>,
)
    requires
        RequestView::ReadWriteMultipleRegisters(read_address, quantity, write_address, words).wf(),
    ensures
        ({
            let request = RequestView::ReadWriteMultipleRegisters(
                read_address,
                quantity,
                write_address,
                words,
            );
            let pdu = request_bytes(request);
            &&& request_shape(pdu) == Some(request)
            &&& 12 <= pdu.len() <= 252
            &&& pdu.len() == 10 + pdu[9]
            &&& pdu[0] == FunctionCode::ReadWriteMultipleRegisters.spec_code()
        }),
{
    let request = RequestView::ReadWriteMultipleRegisters(
        read_address,
        quantity,
        write_address,
        words,
    );
    let head = fixed_pdu(FunctionCode::ReadWriteMultipleRegisters, read_address, quantity);
    let count = (2 * words.len()) as u8;
    let pdu = request_bytes(request);
    let written = words.len() as u16;
    lemma_fixed_pdu(FunctionCode::ReadWriteMultipleRegisters, read_address, quantity);
    lemma_word_round_trip(write_address, 0, 0);
    lemma_word_round_trip(written, 0, 0);
    lemma_words_round_trip(words);
    assert(pdu.len() == 10 + words_bytes(words).len());
    assert(pdu[0] == head[0] && pdu[1] == head[1] && pdu[2] == head[2] && pdu[3] == head[3]
        && pdu[4] == head[4]);
    assert(pdu[5] == hi(write_address) && pdu[6] == lo(write_address));
    assert(pdu[7] == hi(written) && pdu[8] == lo(written));
    assert(pdu[9] == count);
    assert(pdu.skip(10) =~= words_bytes(words));
}

/// A request that respects the limits is the request that its PDU holds.
pub proof fn lemma_parse_request_inverts(request: RequestView)
    requires
        request.wf(),
    ensures
        parse_request(request_bytes(request)) == Some(request),
        5 <= request_bytes(request).len() <= 253,
        request_bytes(request)[0] == request.function().spec_code(),
        request_count_at(request.function()) matches Some(at) ==> request_bytes(request).len()
            == at + request_bytes(request)[at - 1],
        request_count_at(request.function()) is None ==> request_bytes(request).len() == 5,
{
    match request {
        RequestView::ReadCoils(a, q) => {
            lemma_fixed_pdu(FunctionCode::ReadCoils, a, q);
        },
        RequestView::ReadDiscreteInputs(a, q) => {
            lemma_fixed_pdu(FunctionCode::ReadDiscreteInputs, a, q);
        },
        RequestView::WriteSingleCoil(a, on) => {
            lemma_fixed_pdu(FunctionCode::WriteSingleCoil, a, coil_word(on));
        },
        RequestView::WriteMultipleCoils(a, coils) => {
            lemma_parse_write_coils(a, coils);
        },
        RequestView::ReadInputRegisters(a, q) => {
            lemma_fixed_pdu(FunctionCode::ReadInputRegisters, a, q);
        },
        RequestView::ReadHoldingRegisters(a, q) => {
            lemma_fixed_pdu(FunctionCode::ReadHoldingRegisters, a, q);
        },
        RequestView::WriteSingleRegister(a, w) => {
            lemma_fixed_pdu(FunctionCode::WriteSingleRegister, a, w);
        },
        RequestView::WriteMultipleRegisters(a, words) => {
            lemma_parse_write_words(a, words);
        },
        RequestView::ReadWriteMultipleRegisters(ra, q, wa, words) => {
            lemma_parse_read_write(ra, q, wa, words);
        },
    }
}

/// A response that reports coils, filled up to whole bytes, is the reply
/// that its PDU holds.
proof fn lemma_parse_coils_reply(reply: ReplyView, coils: Seq<bool>)
    requires
        reply_wf(reply),
        reply == Ok::<ResponseView, ExceptionResponse>(ResponseView::ReadCoils(coils)) || reply
            == Ok::<ResponseView, ExceptionResponse>(ResponseView::ReadDiscreteInputs(coils)),
    ensures
        reply_shape(reply_bytes(reply)) == Some(received(reply)),
        reply_wf(received(reply)),
        reply_bytes(reply).len() == 2 + reply_bytes(reply)[1],
        3 <= reply_bytes(reply).len() <= 252,
        reply_bytes(reply)[0] == reply_function(reply).spec_code(),
{
    lemma_coils_round_trip(coils);
    lemma_padded(coils);
    lemma_counted_pdu(reply_function(reply), coils_bytes(coils));
}

/// A response that reports registers is the reply that its PDU holds.
proof fn lemma_parse_words_reply(reply: ReplyView, words: Seq<u16>)
    requires
        reply_wf(reply),
        reply == Ok::<ResponseView, ExceptionResponse>(ResponseView::ReadInputRegisters(words))
            || reply == Ok::<ResponseView, ExceptionResponse>(
            ResponseView::ReadHoldingRegisters(words),
        ) || reply == Ok::<ResponseView, ExceptionResponse>(
            ResponseView::ReadWriteMultipleRegisters(words),
        ),
    ensures
        reply_shape(reply_bytes(reply)) == Some(reply),
        reply_bytes(reply).len() == 2 + reply_bytes(reply)[1],
        4 <= reply_bytes(reply).len() <= 252,
        reply_bytes(reply)[0] == reply_function(reply).spec_code(),
{
    lemma_words_round_trip(words);
    lemma_counted_pdu(reply_function(reply), words_bytes(words));
}

/// A response of two words is the reply that its PDU holds.
proof fn lemma_parse_fixed_reply(reply: ReplyView)
    requires
        reply matches Ok(response) && response_count_at(response.function()) is None,
    ensures
        reply_shape(reply_bytes(reply)) == Some(reply),
        reply_bytes(reply).len() == 5,
        reply_bytes(reply)[0] == reply_function(reply).spec_code(),
{
    match reply {
        Ok(ResponseView::WriteSingleCoil(a, on)) => {
            lemma_fixed_pdu(FunctionCode::WriteSingleCoil, a, coil_word(on));
        },
        Ok(ResponseView::WriteMultipleCoils(a, q)) => {
            lemma_fixed_pdu(FunctionCode::WriteMultipleCoils, a, q);
        },
        Ok(ResponseView::WriteSingleRegister(a, w)) => {
            lemma_fixed_pdu(FunctionCode::WriteSingleRegister, a, w);
        },
        Ok(ResponseView::WriteMultipleRegisters(a, q)) => {
            lemma_fixed_pdu(FunctionCode::WriteMultipleRegisters, a, q);
        },
        _ => {},
    }
}

/// A reply that respects the limits, as it looks once it has gone over the
/// wire, is the reply that its PDU holds.
pub proof fn lemma_parse_reply_inverts(reply: ReplyView)
    requires
        reply_wf(reply),
    ensures
        parse_reply(reply_bytes(reply)) == Some(received(reply)),
        reply_wf(received(reply)),
        2 <= reply_bytes(reply).len() <= 253,
        reply is Ok ==> reply_bytes(reply)[0] == reply_function(reply).spec_code(),
        reply is Err ==> reply_bytes(reply)[0] == reply_function(reply).spec_code() + 0x80
            && reply_bytes(reply).len() == 2,
        reply is Ok ==> (response_count_at(reply_function(reply)) is Some ==> reply_bytes(
            reply,
        ).len() == 2 + reply_bytes(reply)[1]),
        reply is Ok ==> (response_count_at(reply_function(reply)) is None ==> reply_bytes(
            reply,
        ).len() == 5),
{
    match reply {
        Ok(ResponseView::ReadCoils(coils)) => {
            lemma_parse_coils_reply(reply, coils);
        },
        Ok(ResponseView::ReadDiscreteInputs(coils)) => {
            lemma_parse_coils_reply(reply, coils);
        },
        Ok(ResponseView::ReadInputRegisters(words)) => {
            lemma_parse_words_reply(reply, words);
        },
        Ok(ResponseView::ReadHoldingRegisters(words)) => {
            lemma_parse_words_reply(reply, words);
        },
        Ok(ResponseView::ReadWriteMultipleRegisters(words)) => {
            lemma_parse_words_reply(reply, words);
        },
        Ok(_) => {
            lemma_parse_fixed_reply(reply);
        },
        Err(refusal) => {},
    }
}

/// Along a request frame the end of the frame is either not yet told or
/// told rightly, and it is told once the whole frame is there.
proof fn lemma_request_extent_along_frame(adu: RequestAduView, buf: Seq<u8>)
    requires
        adu.wf(),
        agree(buf, request_frame(adu)),
    ensures
        request_extent(buf) == Extent::Incomplete || request_extent(buf) == Extent::Known(
            request_frame(adu).len() as usize,
        ),
        buf.len() >= request_frame(adu).len() ==> request_extent(buf) == Extent::Known(
            request_frame(adu).len() as usize,
        ),
{
    let pdu = request_bytes(adu.request);
    let whole = request_frame(adu);
    lemma_parse_request_inverts(adu.request);
    lemma_frame_parts(adu.slave_id, pdu);
    if buf.len() >= 4 {
        assert(buf[1] == whole[1]);
        assert(whole[0int + 1] == pdu[0]);
        match request_count_at(adu.request.function()) {
            Some(at) => {
                if buf.len() > at {
                    assert(buf[at as int] == whole[at as int]);
                    assert(whole[(at - 1) + 1] == pdu[at - 1]);
                }
            },
            None => {},
        }
    }
}

/// Along a response frame the end of the frame is either not yet told or
/// told rightly, and it is told once the whole frame is there.
proof fn lemma_response_extent_along_frame(adu: ResponseAduView, buf: Seq<u8>)
    requires
        adu.wf(),
        agree(buf, response_frame(adu)),
    ensures
        response_extent(buf) == Extent::Incomplete || response_extent(buf) == Extent::Known(
            response_frame(adu).len() as usize,
        ),
        buf.len() >= response_frame(adu).len() ==> response_extent(buf) == Extent::Known(
            response_frame(adu).len() as usize,
        ),
{
    let pdu = reply_bytes(adu.reply);
    let whole = response_frame(adu);
    lemma_parse_reply_inverts(adu.reply);
    lemma_frame_parts(adu.slave_id, pdu);
    if buf.len() >= 4 {
        assert(buf[1] == whole[1]);
        assert(whole[0int + 1] == pdu[0]);
        assert(buf[2] == whole[2]);
        assert(whole[1int + 1] == pdu[1]);
    }
}

/// Decoding undoes encoding, for requests: a stream that starts with the
/// frame of a request ADU decodes to that ADU, and exactly the bytes of the
/// frame are taken.
pub proof fn theorem_request_round_trip(adu: RequestAduView, buf: Seq<u8>)
    requires
        adu.wf(),
        request_frame(adu).is_prefix_of(buf),
    ensures
        decoded_request(buf) == Decoded::Frame(adu, request_frame(adu).len() as usize),
        8 <= request_frame(adu).len() <= 256,
{
    let pdu = request_bytes(adu.request);
    let whole = request_frame(adu);
    lemma_parse_request_inverts(adu.request);
    lemma_frame_parts(adu.slave_id, pdu);
    lemma_request_extent_along_frame(adu, buf);
    assert(buf.take(whole.len() as int) =~= whole);
}

/// Decoding undoes encoding, for replies: a stream that starts with the
/// frame of a response ADU decodes to that ADU as it looks once it has gone
/// over the wire, and exactly the bytes of the frame are taken.
pub proof fn theorem_response_round_trip(adu: ResponseAduView, buf: Seq<u8>)
    requires
        adu.wf(),
        response_frame(adu).is_prefix_of(buf),
    ensures
        decoded_response(buf) == Decoded::Frame(
            ResponseAduView { slave_id: adu.slave_id, reply: received(adu.reply) },
            response_frame(adu).len() as usize,
        ),
        received(adu.reply) == adu.reply ==> decoded_response(buf) == Decoded::Frame(
            adu,
            response_frame(adu).len() as usize,
        ),
        5 <= response_frame(adu).len() <= 256,
{
    let pdu = reply_bytes(adu.reply);
    let whole = response_frame(adu);
    lemma_parse_reply_inverts(adu.reply);
    lemma_frame_parts(adu.slave_id, pdu);
    lemma_response_extent_along_frame(adu, buf);
    assert(buf.take(whole.len() as int) =~= whole);
}

/// A request frame can arrive in pieces: as long as any of its bytes is
/// missing, what has arrived decodes to nothing and to no error.
pub proof fn theorem_request_resumable(adu: RequestAduView, arrived: int)
    requires
        adu.wf(),
        0 <= arrived < request_frame(adu).len(),
    ensures
        decoded_request(request_frame(adu).take(arrived)) == Decoded::<
            RequestAduView,
        >::Incomplete,
{
    lemma_request_extent_along_frame(adu, request_frame(adu).take(arrived));
}

/// A response frame can arrive in pieces: as long as any of its bytes is
/// missing, what has arrived decodes to nothing and to no error.
pub proof fn theorem_response_resumable(adu: ResponseAduView, arrived: int)
    requires
        adu.wf(),
        0 <= arrived < response_frame(adu).len(),
    ensures
        decoded_response(response_frame(adu).take(arrived)) == Decoded::<
            ResponseAduView,
        >::Incomplete,
{
    lemma_response_extent_along_frame(adu, response_frame(adu).take(arrived));
}

/// A frame with one byte before its checksum changed is no longer sealed.
proof fn lemma_changed_frame_unsealed(slave_id: SlaveId, pdu: Seq<u8>, at: int, byte: u8)
    requires
        0 <= at < pdu.len() + 1,
        byte != frame(slave_id, pdu)[at],
    ensures
        !sealed(frame(slave_id, pdu).update(at, byte)),
{
    let body = seq![slave_id] + pdu;
    let whole = frame(slave_id, pdu);
    let changed = whole.update(at, byte);
    let n = whole.len() as int;
    lemma_frame_parts(slave_id, pdu);
    assert(whole.take(n - 2) =~= body);
    assert(changed.take(n - 2) =~= body.update(at, byte));
    lemma_checksum_detects_byte_change(body, body.update(at, byte), at);
    lemma_word_round_trip(checksum(body), 0, 0);
    lemma_word_round_trip(checksum(body.update(at, byte)), 0, 0);
}

/// The checksum catches a changed byte, for requests. Let one byte of a
/// request frame, before its checksum, be changed. If the frame still ends
/// where it did, decoding fails with a checksum error and throws the frame
/// away. The frame still ends where it did unless the byte changed is the
/// function code or the byte count. And wherever the frame ends now, its
/// bytes are never taken for a whole frame again.
pub proof fn theorem_request_corruption_detected(adu: RequestAduView, at: int, byte: u8)
    requires
        adu.wf(),
        0 <= at < request_frame(adu).len() - 2,
        byte != request_frame(adu)[at],
    ensures
        request_extent(request_frame(adu).update(at, byte)) == request_extent(request_frame(adu))
            ==> decoded_request(request_frame(adu).update(at, byte)) == Decoded::<
            RequestAduView,
        >::Malformed(FrameError::Checksum, request_frame(adu).len() as usize),
        at != 1 && request_count_at(adu.request.function()) != Some(at as usize)
            ==> request_extent(request_frame(adu).update(at, byte)) == request_extent(
            request_frame(adu),
        ),
        decoded_request(request_frame(adu).update(at, byte)) matches Decoded::Frame(_, taken)
            ==> taken != request_frame(adu).len(),
{
    let pdu = request_bytes(adu.request);
    let whole = request_frame(adu);
    let changed = whole.update(at, byte);
    lemma_parse_request_inverts(adu.request);
    lemma_frame_parts(adu.slave_id, pdu);
    lemma_request_extent_along_frame(adu, whole);
    lemma_changed_frame_unsealed(adu.slave_id, pdu, at, byte);
    assert(changed.take(whole.len() as int) =~= changed);
}

/// The checksum catches a changed byte, for replies. Let one byte of a
/// response frame, before its checksum, be changed. If the frame still ends
/// where it did, decoding fails with a checksum error and throws the frame
/// away. The frame still ends where it did unless the byte changed is the
/// function code or the byte after it. And wherever the frame ends now, its
/// bytes are never taken for a whole frame again.
pub proof fn theorem_response_corruption_detected(adu: ResponseAduView, at: int, byte: u8)
    requires
        adu.wf(),
        0 <= at < response_frame(adu).len() - 2,
        byte != response_frame(adu)[at],
    ensures
        response_extent(response_frame(adu).update(at, byte)) == response_extent(
            response_frame(adu),
        ) ==> decoded_response(response_frame(adu).update(at, byte)) == Decoded::<
            ResponseAduView,
        >::Malformed(FrameError::Checksum, response_frame(adu).len() as usize),
        at != 1 && at != 2 ==> response_extent(response_frame(adu).update(at, byte))
            == response_extent(response_frame(adu)),
        decoded_response(response_frame(adu).update(at, byte)) matches Decoded::Frame(_, taken)
            ==> taken != response_frame(adu).len(),
{
    let pdu = reply_bytes(adu.reply);
    let whole = response_frame(adu);
    let changed = whole.update(at, byte);
    lemma_parse_reply_inverts(adu.reply);
    lemma_frame_parts(adu.slave_id, pdu);
    lemma_response_extent_along_frame(adu, whole);
    lemma_changed_frame_unsealed(adu.slave_id, pdu, at, byte);
    assert(changed.take(whole.len() as int) =~= changed);
}

/// A byte with one of its eight bits turned over.
pub open spec fn flip_bit(byte: u8, bit: u8) -> u8 {
    byte ^ (1u8 << bit)
}

/// Turning a bit over changes the byte.
pub proof fn lemma_flip_bit_changes(byte: u8, bit: u8)
    requires
        bit < 8,
    ensures
        flip_bit(byte, bit) != byte,
{
    assert(bit < 8 ==> byte ^ (1u8 << bit) != byte) by (bit_vector);
}

/// The checksum catches a flipped bit, for requests. Let one bit of a
/// request frame be turned over, in any byte before the checksum but the
/// function code and the byte count. Then decoding fails with a checksum
/// error and throws the frame away.
pub proof fn theorem_request_bit_flip_detected(adu: RequestAduView, at: int, bit: u8)
    requires
        adu.wf(),
        0 <= at < request_frame(adu).len() - 2,
        bit < 8,
        at != 1,
        request_count_at(adu.request.function()) != Some(at as usize),
    ensures
        decoded_request(request_frame(adu).update(at, flip_bit(request_frame(adu)[at], bit)))
            == Decoded::<RequestAduView>::Malformed(
            FrameError::Checksum,
            request_frame(adu).len() as usize,
        ),
{
    lemma_flip_bit_changes(request_frame(adu)[at], bit);
    theorem_request_corruption_detected(adu, at, flip_bit(request_frame(adu)[at], bit));
}

/// The checksum catches a flipped bit, for replies. Let one bit of a
/// response frame be turned over, in any byte before the checksum but the
/// function code and the byte after it. Then decoding fails with a checksum
/// error and throws the frame away.
pub proof fn theorem_response_bit_flip_detected(adu: ResponseAduView, at: int, bit: u8)
    requires
        adu.wf(),
        0 <= at < response_frame(adu).len() - 2,
        bit < 8,
        at != 1,
        at != 2,
    ensures
        decoded_response(response_frame(adu).update(at, flip_bit(response_frame(adu)[at], bit)))
            == Decoded::<ResponseAduView>::Malformed(
            FrameError::Checksum,
            response_frame(adu).len() as usize,
        ),
{
    lemma_flip_bit_changes(response_frame(adu)[at], bit);
    theorem_response_corruption_detected(adu, at, flip_bit(response_frame(adu)[at], bit));
}

/// What decoding accepts, it has checked: a request ADU comes only out of
/// bytes that are at hand, whose checksum covers exactly the bytes taken,
/// and it respects the limits of the protocol. What decoding throws away is
/// at hand too, and is at least one byte.
pub proof fn theorem_decoded_request_checked(buf: Seq<u8>)
    requires
        buf.len() <= usize::MAX,
    ensures
        decoded_request(buf) matches Decoded::Frame(adu, taken) ==> {
            &&& 8 <= taken <= buf.len()
            &&& sealed(buf.take(taken as int))
            &&& adu.wf()
            &&& adu.slave_id == buf[0]
            &&& parse_request(pdu_of(buf.take(taken as int))) == Some(adu.request)
        },
        decoded_request(buf) matches Decoded::Malformed(_, taken) ==> 4 <= taken <= buf.len(),
{
}

/// What decoding accepts, it has checked: a response ADU comes only out of
/// bytes that are at hand, whose checksum covers exactly the bytes taken,
/// and it respects the limits of the protocol. What decoding throws away is
/// at hand too, and is at least one byte.
pub proof fn theorem_decoded_response_checked(buf: Seq<u8>)
    requires
        buf.len() <= usize::MAX,
    ensures
        decoded_response(buf) matches Decoded::Frame(adu, taken) ==> {
            &&& 5 <= taken <= buf.len()
            &&& sealed(buf.take(taken as int))
            &&& adu.wf()
            &&& adu.slave_id == buf[0]
            &&& parse_reply(pdu_of(buf.take(taken as int))) == Some(adu.reply)
        },
        decoded_response(buf) matches Decoded::Malformed(_, taken) ==> 4 <= taken <= buf.len(),
{
}

} // verus!
