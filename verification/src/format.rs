//! The RTU wire format as mathematics: which bytes a frame is made of, where
//! a frame ends in a stream of bytes, and which ADU a run of bytes holds.
//!
//! A frame is the device address, the PDU (function code and payload, words
//! high byte first) and the checksum of all that, low byte first.

use vstd::prelude::*;
use crate::crc::checksum;
use crate::frame::{
    Exception, ExceptionResponse, FunctionCode, ReplyView, RequestAduView, RequestView,
    ResponseAduView, ResponseView, SlaveId, MAX_SLAVE_ID, reply_wf,
};
use crate::wire::{
    bytes_coils, bytes_words, coil_bytes, coils_bytes, hi, lo, padded, word_bytes, word_of,
    words_bytes,
};

verus! {

/// The length of the shortest run of bytes that is looked at as a frame.
pub const MIN_FRAME_LEN: usize = 4;

/// Why a run of bytes is not accepted as a frame.
#[derive(Clone, Copy, Debug, PartialEq, Eq, Structural)]
pub enum FrameError {
    /// The checksum over the frame is not the one that closes it.
    Checksum,
    /// The function code is none that this library knows, so that where the
    /// frame ends cannot be told.
    UnsupportedFunction,
    /// The device address is above the highest that a device can have.
    InvalidSlave,
    /// The payload does not have the shape that its function code asks for,
    /// or breaks a limit of the protocol.
    InvalidPayload,
    /// The stream ended within a frame.
    Truncated,
}

/// What the start of a stream of bytes holds.
#[derive(Debug, PartialEq, Eq)]
pub enum Decoded<T> {
    /// Not yet a whole frame: more bytes are needed, nothing is consumed.
    Incomplete,
    /// A frame, and the number of bytes that it took.
    Frame(T, usize),
    /// No frame, and the number of bytes to throw away.
    Malformed(FrameError, usize),
}

impl<T: View> View for Decoded<T> {
    type V = Decoded<T::V>;

    open spec fn view(&self) -> Decoded<T::V> {
        match self {
            Decoded::Incomplete => Decoded::Incomplete,
            Decoded::Frame(adu, taken) => Decoded::Frame(adu@, *taken),
            Decoded::Malformed(error, taken) => Decoded::Malformed(*error, *taken),
        }
    }
}

/// Where the frame at the start of a stream of bytes ends.
#[derive(Clone, Copy, Debug, PartialEq, Eq, Structural)]
pub enum Extent {
    /// This cannot be told yet.
    Incomplete,
    /// This can never be told: the function code is not known.
    Unsupported,
    /// After this many bytes.
    Known(usize),
}

/// The word that stands for the state of a coil.
pub open spec fn coil_word(on: bool) -> u16 {
    if on {
        0xFF00
    } else {
        0
    }
}

/// A PDU of a function code and two words.
pub open spec fn fixed_pdu(function: FunctionCode, first: u16, second: u16) -> Seq<u8> {
    seq![function.spec_code(), hi(first), lo(first), hi(second), lo(second)]
}

/// A PDU of a function code, a byte count and that many bytes.
pub open spec fn counted_pdu(function: FunctionCode, data: Seq<u8>) -> Seq<u8> {
    seq![function.spec_code(), data.len() as u8] + data
}

/// The PDU of a request.
pub open spec fn request_bytes(request: RequestView) -> Seq<u8> {
    match request {
        RequestView::ReadCoils(address, quantity) => fixed_pdu(
            FunctionCode::ReadCoils,
            address,
            quantity,
        ),
        RequestView::ReadDiscreteInputs(address, quantity) => fixed_pdu(
            FunctionCode::ReadDiscreteInputs,
            address,
            quantity,
        ),
        RequestView::WriteSingleCoil(address, on) => fixed_pdu(
            FunctionCode::WriteSingleCoil,
            address,
            coil_word(on),
        ),
        RequestView::WriteMultipleCoils(address, coils) => fixed_pdu(
            FunctionCode::WriteMultipleCoils,
            address,
            coils.len() as u16,
        ) + seq![coil_bytes(coils.len() as int) as u8] + coils_bytes(coils),
        RequestView::ReadInputRegisters(address, quantity) => fixed_pdu(
            FunctionCode::ReadInputRegisters,
            address,
            quantity,
        ),
        RequestView::ReadHoldingRegisters(address, quantity) => fixed_pdu(
            FunctionCode::ReadHoldingRegisters,
            address,
            quantity,
        ),
        RequestView::WriteSingleRegister(address, word) => fixed_pdu(
            FunctionCode::WriteSingleRegister,
            address,
            word,
        ),
        RequestView::WriteMultipleRegisters(address, words) => fixed_pdu(
            FunctionCode::WriteMultipleRegisters,
            address,
            words.len() as u16,
        ) + seq![(2 * words.len()) as u8] + words_bytes(words),
        RequestView::ReadWriteMultipleRegisters(read_address, quantity, write_address, words) => {
            fixed_pdu(FunctionCode::ReadWriteMultipleRegisters, read_address, quantity)
                + word_bytes(write_address) + word_bytes(words.len() as u16) + seq![
                (2 * words.len()) as u8,
            ] + words_bytes(words)
        },
    }
}

/// The PDU of a reply. A refusal is the function code with its highest bit
/// set, and the reason.
pub open spec fn reply_bytes(reply: ReplyView) -> Seq<u8> {
    match reply {
        Ok(ResponseView::ReadCoils(coils)) => counted_pdu(
            FunctionCode::ReadCoils,
            coils_bytes(coils),
        ),
        Ok(ResponseView::ReadDiscreteInputs(coils)) => counted_pdu(
            FunctionCode::ReadDiscreteInputs,
            coils_bytes(coils),
        ),
        Ok(ResponseView::WriteSingleCoil(address, on)) => fixed_pdu(
            FunctionCode::WriteSingleCoil,
            address,
            coil_word(on),
        ),
        Ok(ResponseView::WriteMultipleCoils(address, quantity)) => fixed_pdu(
            FunctionCode::WriteMultipleCoils,
            address,
            quantity,
        ),
        Ok(ResponseView::ReadInputRegisters(words)) => counted_pdu(
            FunctionCode::ReadInputRegisters,
            words_bytes(words),
        ),
        Ok(ResponseView::ReadHoldingRegisters(words)) => counted_pdu(
            FunctionCode::ReadHoldingRegisters,
            words_bytes(words),
        ),
        Ok(ResponseView::WriteSingleRegister(address, word)) => fixed_pdu(
            FunctionCode::WriteSingleRegister,
            address,
            word,
        ),
        Ok(ResponseView::WriteMultipleRegisters(address, quantity)) => fixed_pdu(
            FunctionCode::WriteMultipleRegisters,
            address,
            quantity,
        ),
        Ok(ResponseView::ReadWriteMultipleRegisters(words)) => counted_pdu(
            FunctionCode::ReadWriteMultipleRegisters,
            words_bytes(words),
        ),
        Err(refusal) => seq![
            (refusal.function.spec_code() + 0x80) as u8,
            refusal.exception.spec_code(),
        ],
    }
}

/// The two bytes that close a frame: the checksum of what goes before, low
/// byte first.
pub open spec fn trailer(body: Seq<u8>) -> Seq<u8> {
    seq![lo(checksum(body)), hi(checksum(body))]
}

/// The frame of a device address and a PDU.
pub open spec fn frame(slave_id: SlaveId, pdu: Seq<u8>) -> Seq<u8> {
    (seq![slave_id] + pdu) + trailer(seq![slave_id] + pdu)
}

/// The frame of a request ADU.
pub open spec fn request_frame(adu: RequestAduView) -> Seq<u8> {
    frame(adu.slave_id, request_bytes(adu.request))
}

/// The frame of a response ADU.
pub open spec fn response_frame(adu: ResponseAduView) -> Seq<u8> {
    frame(adu.slave_id, reply_bytes(adu.reply))
}

/// Whether the last two bytes of a run are the checksum of the others.
pub open spec fn sealed(bytes: Seq<u8>) -> bool {
    let n = bytes.len() as int;
    &&& n >= 2
    &&& bytes[n - 2] == lo(checksum(bytes.take(n - 2)))
    &&& bytes[n - 1] == hi(checksum(bytes.take(n - 2)))
}

/// The index in a request frame of the byte that counts the bytes of data
/// after it, for a function code whose requests vary in length.
pub open spec fn request_count_at(function: FunctionCode) -> Option<usize> {
    match function {
        FunctionCode::WriteMultipleCoils | FunctionCode::WriteMultipleRegisters => Some(6),
        FunctionCode::ReadWriteMultipleRegisters => Some(10),
        _ => None,
    }
}

/// The index in a response frame of the byte that counts the bytes of data
/// after it, for a function code whose responses vary in length.
pub open spec fn response_count_at(function: FunctionCode) -> Option<usize> {
    match function {
        FunctionCode::ReadCoils
        | FunctionCode::ReadDiscreteInputs
        | FunctionCode::ReadHoldingRegisters
        | FunctionCode::ReadInputRegisters
        | FunctionCode::ReadWriteMultipleRegisters => Some(2),
        _ => None,
    }
}

/// Where a frame ends whose length is fixed, or is told by the byte at
/// `count_at`: after that byte, the bytes that it counts and the checksum.
pub open spec fn extent_by_count(buf: Seq<u8>, count_at: Option<usize>) -> Extent {
    match count_at {
        None => Extent::Known(8),
        Some(at) => if buf.len() > at {
            Extent::Known((at + 3 + buf[at as int]) as usize)
        } else {
            Extent::Incomplete
        },
    }
}

/// Where the request frame at the start of a stream ends. The function code
/// tells: it either fixes the length or is followed by a byte count at a
/// known place.
pub open spec fn request_extent(buf: Seq<u8>) -> Extent {
    if buf.len() < MIN_FRAME_LEN {
        Extent::Incomplete
    } else {
        match FunctionCode::spec_from_code(buf[1]) {
            None => Extent::Unsupported,
            Some(function) => extent_by_count(buf, request_count_at(function)),
        }
    }
}

/// Where the response frame at the start of a stream ends. A refusal, whose
/// function code has its highest bit set, is five bytes long.
pub open spec fn response_extent(buf: Seq<u8>) -> Extent {
    if buf.len() < MIN_FRAME_LEN {
        Extent::Incomplete
    } else if buf[1] >= 0x80 {
        match FunctionCode::spec_from_code((buf[1] - 0x80) as u8) {
            None => Extent::Unsupported,
            Some(_) => Extent::Known(5),
        }
    } else {
        match FunctionCode::spec_from_code(buf[1]) {
            None => Extent::Unsupported,
            Some(function) => extent_by_count(buf, response_count_at(function)),
        }
    }
}

/// What a reply looks like once it has gone over the wire: a response that
/// reports coils reports them filled up to whole bytes with coils that are
/// off; every other reply is as it was.
pub open spec fn received(reply: ReplyView) -> ReplyView {
    match reply {
        Ok(ResponseView::ReadCoils(coils)) => Ok(ResponseView::ReadCoils(padded(coils))),
        Ok(ResponseView::ReadDiscreteInputs(coils)) => Ok(
            ResponseView::ReadDiscreteInputs(padded(coils)),
        ),
        other => other,
    }
}

/// The state of a coil that a word stands for, if it stands for one.
pub open spec fn word_coil(word: u16) -> Option<bool> {
    if word == 0xFF00 {
        Some(true)
    } else if word == 0 {
        Some(false)
    } else {
        None
    }
}

/// The request whose layout a PDU has, whatever its counts: the length is
/// the one that the function code asks for, a byte count is the one that the
/// quantity asks for, and the state of a single coil is one of its two words.
pub open spec fn request_shape(pdu: Seq<u8>) -> Option<RequestView> {
    if pdu.len() < 5 {
        None
    } else {
        let first = word_of(pdu[1], pdu[2]);
        let second = word_of(pdu[3], pdu[4]);
        match FunctionCode::spec_from_code(pdu[0]) {
            None => None,
            Some(FunctionCode::ReadCoils) => if pdu.len() == 5 {
                Some(RequestView::ReadCoils(first, second))
            } else {
                None
            },
            Some(FunctionCode::ReadDiscreteInputs) => if pdu.len() == 5 {
                Some(RequestView::ReadDiscreteInputs(first, second))
            } else {
                None
            },
            Some(FunctionCode::ReadHoldingRegisters) => if pdu.len() == 5 {
                Some(RequestView::ReadHoldingRegisters(first, second))
            } else {
                None
            },
            Some(FunctionCode::ReadInputRegisters) => if pdu.len() == 5 {
                Some(RequestView::ReadInputRegisters(first, second))
            } else {
                None
            },
            Some(FunctionCode::WriteSingleCoil) => if pdu.len() == 5 {
                match word_coil(second) {
                    Some(on) => Some(RequestView::WriteSingleCoil(first, on)),
                    None => None,
                }
            } else {
                None
            },
            Some(FunctionCode::WriteSingleRegister) => if pdu.len() == 5 {
                Some(RequestView::WriteSingleRegister(first, second))
            } else {
                None
            },
            Some(FunctionCode::WriteMultipleCoils) => if pdu.len() >= 6 && pdu.len() == 6 + pdu[5]
                && pdu[5] == coil_bytes(second as int) {
                Some(RequestView::WriteMultipleCoils(first, bytes_coils(pdu.skip(6), second as nat)))
            } else {
                None
            },
            Some(FunctionCode::WriteMultipleRegisters) => if pdu.len() >= 6 && pdu.len() == 6
                + pdu[5] && pdu[5] == 2 * second {
                Some(RequestView::WriteMultipleRegisters(first, bytes_words(pdu.skip(6))))
            } else {
                None
            },
            Some(FunctionCode::ReadWriteMultipleRegisters) => if pdu.len() >= 10 && pdu.len() == 10
                + pdu[9] && pdu[9] == 2 * word_of(pdu[7], pdu[8]) {
                Some(
                    RequestView::ReadWriteMultipleRegisters(
                        first,
                        second,
                        word_of(pdu[5], pdu[6]),
                        bytes_words(pdu.skip(10)),
                    ),
                )
            } else {
                None
            },
        }
    }
}

/// The request that a PDU holds: the one whose layout it has, if that one
/// respects the limits of the protocol.
pub open spec fn parse_request(pdu: Seq<u8>) -> Option<RequestView> {
    match request_shape(pdu) {
        Some(request) => if request.wf() {
            Some(request)
        } else {
            None
        },
        None => None,
    }
}

/// The reply whose layout a PDU has, whatever its counts. A response that
/// reports coils reports eight for each byte.
pub open spec fn reply_shape(pdu: Seq<u8>) -> Option<ReplyView> {
    if pdu.len() < 2 {
        None
    } else if pdu[0] >= 0x80 {
        match (
            FunctionCode::spec_from_code((pdu[0] - 0x80) as u8),
            Exception::spec_from_code(pdu[1]),
        ) {
            (Some(function), Some(exception)) => if pdu.len() == 2 {
                Some(Err(ExceptionResponse { function, exception }))
            } else {
                None
            },
            _ => None,
        }
    } else {
        match FunctionCode::spec_from_code(pdu[0]) {
            None => None,
            Some(FunctionCode::ReadCoils) => if pdu.len() == 2 + pdu[1] {
                Some(Ok(ResponseView::ReadCoils(bytes_coils(pdu.skip(2), (8 * pdu[1]) as nat))))
            } else {
                None
            },
            Some(FunctionCode::ReadDiscreteInputs) => if pdu.len() == 2 + pdu[1] {
                Some(
                    Ok(
                        ResponseView::ReadDiscreteInputs(
                            bytes_coils(pdu.skip(2), (8 * pdu[1]) as nat),
                        ),
                    ),
                )
            } else {
                None
            },
            Some(FunctionCode::ReadHoldingRegisters) => if pdu.len() == 2 + pdu[1] && pdu[1] % 2
                == 0 {
                Some(Ok(ResponseView::ReadHoldingRegisters(bytes_words(pdu.skip(2)))))
            } else {
                None
            },
            Some(FunctionCode::ReadInputRegisters) => if pdu.len() == 2 + pdu[1] && pdu[1] % 2
                == 0 {
                Some(Ok(ResponseView::ReadInputRegisters(bytes_words(pdu.skip(2)))))
            } else {
                None
            },
            Some(FunctionCode::ReadWriteMultipleRegisters) => if pdu.len() == 2 + pdu[1] && pdu[1]
                % 2 == 0 {
                Some(Ok(ResponseView::ReadWriteMultipleRegisters(bytes_words(pdu.skip(2)))))
            } else {
                None
            },
            Some(FunctionCode::WriteSingleCoil) => if pdu.len() == 5 {
                match word_coil(word_of(pdu[3], pdu[4])) {
                    Some(on) => Some(
                        Ok(ResponseView::WriteSingleCoil(word_of(pdu[1], pdu[2]), on)),
                    ),
                    None => None,
                }
            } else {
                None
            },
            Some(FunctionCode::WriteSingleRegister) => if pdu.len() == 5 {
                Some(
                    Ok(
                        ResponseView::WriteSingleRegister(
                            word_of(pdu[1], pdu[2]),
                            word_of(pdu[3], pdu[4]),
                        ),
                    ),
                )
            } else {
                None
            },
            Some(FunctionCode::WriteMultipleCoils) => if pdu.len() == 5 {
                Some(
                    Ok(
                        ResponseView::WriteMultipleCoils(
                            word_of(pdu[1], pdu[2]),
                            word_of(pdu[3], pdu[4]),
                        ),
                    ),
                )
            } else {
                None
            },
            Some(FunctionCode::WriteMultipleRegisters) => if pdu.len() == 5 {
                Some(
                    Ok(
                        ResponseView::WriteMultipleRegisters(
                            word_of(pdu[1], pdu[2]),
                            word_of(pdu[3], pdu[4]),
                        ),
                    ),
                )
            } else {
                None
            },
        }
    }
}

/// The reply that a PDU holds: the one whose layout it has, if that one
/// respects the limits of the protocol.
pub open spec fn parse_reply(pdu: Seq<u8>) -> Option<ReplyView> {
    match reply_shape(pdu) {
        Some(reply) => if reply_wf(reply) {
            Some(reply)
        } else {
            None
        },
        None => None,
    }
}

/// The PDU inside a run of bytes that is taken for a frame: all but the
/// device address and the two bytes of the checksum.
pub open spec fn pdu_of(bytes: Seq<u8>) -> Seq<u8> {
    bytes.subrange(1, bytes.len() - 2)
}

/// What a run of bytes, taken for one whole request frame, holds. The
/// checksum is looked at first, then the device address, then the PDU.
pub open spec fn checked_request(bytes: Seq<u8>) -> Decoded<RequestAduView> {
    let n = bytes.len() as usize;
    if !sealed(bytes) {
        Decoded::Malformed(FrameError::Checksum, n)
    } else if bytes[0] > MAX_SLAVE_ID {
        Decoded::Malformed(FrameError::InvalidSlave, n)
    } else {
        match parse_request(pdu_of(bytes)) {
            Some(request) => Decoded::Frame(RequestAduView { slave_id: bytes[0], request }, n),
            None => Decoded::Malformed(FrameError::InvalidPayload, n),
        }
    }
}

/// What a run of bytes, taken for one whole response frame, holds.
pub open spec fn checked_response(bytes: Seq<u8>) -> Decoded<ResponseAduView> {
    let n = bytes.len() as usize;
    if !sealed(bytes) {
        Decoded::Malformed(FrameError::Checksum, n)
    } else if bytes[0] > MAX_SLAVE_ID {
        Decoded::Malformed(FrameError::InvalidSlave, n)
    } else {
        match parse_reply(pdu_of(bytes)) {
            Some(reply) => Decoded::Frame(ResponseAduView { slave_id: bytes[0], reply }, n),
            None => Decoded::Malformed(FrameError::InvalidPayload, n),
        }
    }
}

/// What the start of a stream of bytes holds for a server. While the end of
/// the frame cannot be told or lies beyond the bytes at hand, the stream is
/// incomplete. With a function code that is not known all the bytes at hand
/// are thrown away. Otherwise the frame is taken off the stream, and it
/// either holds a request or is thrown away whole.
pub open spec fn decoded_request(buf: Seq<u8>) -> Decoded<RequestAduView> {
    match request_extent(buf) {
        Extent::Incomplete => Decoded::Incomplete,
        Extent::Unsupported => Decoded::Malformed(
            FrameError::UnsupportedFunction,
            buf.len() as usize,
        ),
        Extent::Known(n) => if buf.len() < n {
            Decoded::Incomplete
        } else {
            checked_request(buf.take(n as int))
        },
    }
}

/// What the start of a stream of bytes holds for a client.
pub open spec fn decoded_response(buf: Seq<u8>) -> Decoded<ResponseAduView> {
    match response_extent(buf) {
        Extent::Incomplete => Decoded::Incomplete,
        Extent::Unsupported => Decoded::Malformed(
            FrameError::UnsupportedFunction,
            buf.len() as usize,
        ),
        Extent::Known(n) => if buf.len() < n {
            Decoded::Incomplete
        } else {
            checked_response(buf.take(n as int))
        },
    }
}

/// What is made of `decoded`, which the bytes `buf` hold, once it is known
/// that no more bytes will come: bytes that are no whole frame can no longer
/// become one, so that they are a truncated frame and are thrown away. With
/// no bytes left there is nothing more to decode.
pub open spec fn at_end<T>(buf: Seq<u8>, decoded: Decoded<T>) -> Decoded<T> {
    match decoded {
        Decoded::Incomplete => if buf.len() == 0 {
            Decoded::Incomplete
        } else {
            Decoded::Malformed(FrameError::Truncated, buf.len() as usize)
        },
        other => other,
    }
}

/// What the last bytes of a stream hold for a server.
pub open spec fn request_at_end(buf: Seq<u8>) -> Decoded<RequestAduView> {
    at_end(buf, decoded_request(buf))
}

/// What the last bytes of a stream hold for a client.
pub open spec fn response_at_end(buf: Seq<u8>) -> Decoded<ResponseAduView> {
    at_end(buf, decoded_response(buf))
}

} // verus!
