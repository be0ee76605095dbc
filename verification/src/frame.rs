//! The frame model: function codes, exception codes, requests, responses and
//! the units in which they travel. A protocol data unit (PDU) is a request or
//! a reply that respects the limits of the protocol; an application data unit
//! (ADU) is a PDU together with the header that addresses it. A PDU or a
//! header that breaks a limit cannot be built.
//!
//! The limits are those of the Modbus application protocol, which keeps a
//! frame on a serial line within 256 bytes: its description of each function
//! code gives the range of the quantity (1 to 2000 coils or 1 to 125
//! registers read, 1 to 1968 coils or 1 to 123 registers written, 1 to 121
//! registers written along with a read), and the serial line standard gives
//! the range of device addresses (0 for broadcast, 1 to 247 for devices, 248
//! to 255 reserved). A count of zero or above its range is not a request
//! that a client may send, so that a frame which carries one is refused as
//! malformed where it is decoded, before any service sees it.

use vstd::prelude::*;
use vstd::slice::slice_to_vec;

verus! {

/// The address of a device on the serial line.
pub type SlaveId = u8;

/// The address of a coil or of a register.
pub type Address = u16;

/// A number of coils or of registers.
pub type Quantity = u16;

/// The content of a register.
pub type Word = u16;

/// The state of a coil.
pub type Coil = bool;

/// The highest address a device can have; 0 addresses every device at once,
/// and the addresses above 247 are reserved.
pub const MAX_SLAVE_ID: SlaveId = 247;

/// The most coils or discrete inputs one frame can report: 0x7D0 in the
/// protocol's description of function codes 0x01 and 0x02.
pub const MAX_COILS_READ: usize = 2000;

/// The most registers one frame can report: 0x7D in the protocol's
/// description of function codes 0x03, 0x04 and 0x17.
pub const MAX_REGISTERS_READ: usize = 125;

/// The most coils one frame can set: 0x7B0 in the protocol's description of
/// function code 0x0F.
pub const MAX_COILS_WRITTEN: usize = 1968;

/// The most registers one frame can set: 0x7B in the protocol's description
/// of function code 0x10.
pub const MAX_REGISTERS_WRITTEN: usize = 123;

/// The most registers one frame can set when it also reads: 0x79 in the
/// protocol's description of function code 0x17.
pub const MAX_REGISTERS_EXCHANGED: usize = 121;

/// The operations of the protocol.
#[derive(Clone, Copy, Debug, PartialEq, Eq, Structural)]
pub enum FunctionCode {
    ReadCoils,
    ReadDiscreteInputs,
    ReadHoldingRegisters,
    ReadInputRegisters,
    WriteSingleCoil,
    WriteSingleRegister,
    WriteMultipleCoils,
    WriteMultipleRegisters,
    ReadWriteMultipleRegisters,
}

impl FunctionCode {
    /// The byte that stands for the operation on the wire.
    pub open spec fn spec_code(self) -> u8 {
        match self {
            FunctionCode::ReadCoils => 0x01,
            FunctionCode::ReadDiscreteInputs => 0x02,
            FunctionCode::ReadHoldingRegisters => 0x03,
            FunctionCode::ReadInputRegisters => 0x04,
            FunctionCode::WriteSingleCoil => 0x05,
            FunctionCode::WriteSingleRegister => 0x06,
            FunctionCode::WriteMultipleCoils => 0x0F,
            FunctionCode::WriteMultipleRegisters => 0x10,
            FunctionCode::ReadWriteMultipleRegisters => 0x17,
        }
    }

    /// The operation a byte stands for, if any.
    pub open spec fn spec_from_code(code: u8) -> Option<FunctionCode> {
        if code == 0x01 {
            Some(FunctionCode::ReadCoils)
        } else if code == 0x02 {
            Some(FunctionCode::ReadDiscreteInputs)
        } else if code == 0x03 {
            Some(FunctionCode::ReadHoldingRegisters)
        } else if code == 0x04 {
            Some(FunctionCode::ReadInputRegisters)
        } else if code == 0x05 {
            Some(FunctionCode::WriteSingleCoil)
        } else if code == 0x06 {
            Some(FunctionCode::WriteSingleRegister)
        } else if code == 0x0F {
            Some(FunctionCode::WriteMultipleCoils)
        } else if code == 0x10 {
            Some(FunctionCode::WriteMultipleRegisters)
        } else if code == 0x17 {
            Some(FunctionCode::ReadWriteMultipleRegisters)
        } else {
            None
        }
    }

    /// The byte that stands for the operation on the wire.
    #[verifier::when_used_as_spec(spec_code)]
    pub fn code(self) -> (code: u8)
        ensures
            code == self.spec_code(),
            code < 0x80,
            Self::spec_from_code(code) == Some(self),
    {
        match self {
            FunctionCode::ReadCoils => 0x01,
            FunctionCode::ReadDiscreteInputs => 0x02,
            FunctionCode::ReadHoldingRegisters => 0x03,
            FunctionCode::ReadInputRegisters => 0x04,
            FunctionCode::WriteSingleCoil => 0x05,
            FunctionCode::WriteSingleRegister => 0x06,
            FunctionCode::WriteMultipleCoils => 0x0F,
            FunctionCode::WriteMultipleRegisters => 0x10,
            FunctionCode::ReadWriteMultipleRegisters => 0x17,
        }
    }

    /// The operation a byte stands for; `None` for a byte that stands for
    /// none.
    pub fn from_code(code: u8) -> (function: Option<FunctionCode>)
        ensures
            function == Self::spec_from_code(code),
            function matches Some(f) ==> f.spec_code() == code,
    {
        if code == 0x01 {
            Some(FunctionCode::ReadCoils)
        } else if code == 0x02 {
            Some(FunctionCode::ReadDiscreteInputs)
        } else if code == 0x03 {
            Some(FunctionCode::ReadHoldingRegisters)
        } else if code == 0x04 {
            Some(FunctionCode::ReadInputRegisters)
        } else if code == 0x05 {
            Some(FunctionCode::WriteSingleCoil)
        } else if code == 0x06 {
            Some(FunctionCode::WriteSingleRegister)
        } else if code == 0x0F {
            Some(FunctionCode::WriteMultipleCoils)
        } else if code == 0x10 {
            Some(FunctionCode::WriteMultipleRegisters)
        } else if code == 0x17 {
            Some(FunctionCode::ReadWriteMultipleRegisters)
        } else {
            None
        }
    }
}

/// The reasons a device gives for refusing a request.
#[derive(Clone, Copy, Debug, PartialEq, Eq, Structural)]
pub enum Exception {
    IllegalFunction,
    IllegalDataAddress,
    IllegalDataValue,
    ServerDeviceFailure,
    Acknowledge,
    ServerDeviceBusy,
    MemoryParityError,
    GatewayPathUnavailable,
    GatewayTargetDevice,
}

impl Exception {
    /// The byte that stands for the reason on the wire.
    pub open spec fn spec_code(self) -> u8 {
        match self {
            Exception::IllegalFunction => 0x01,
            Exception::IllegalDataAddress => 0x02,
            Exception::IllegalDataValue => 0x03,
            Exception::ServerDeviceFailure => 0x04,
            Exception::Acknowledge => 0x05,
            Exception::ServerDeviceBusy => 0x06,
            Exception::MemoryParityError => 0x08,
            Exception::GatewayPathUnavailable => 0x0A,
            Exception::GatewayTargetDevice => 0x0B,
        }
    }

    /// The reason a byte stands for, if any.
    pub open spec fn spec_from_code(code: u8) -> Option<Exception> {
        if code == 0x01 {
            Some(Exception::IllegalFunction)
        } else if code == 0x02 {
            Some(Exception::IllegalDataAddress)
        } else if code == 0x03 {
            Some(Exception::IllegalDataValue)
        } else if code == 0x04 {
            Some(Exception::ServerDeviceFailure)
        } else if code == 0x05 {
            Some(Exception::Acknowledge)
        } else if code == 0x06 {
            Some(Exception::ServerDeviceBusy)
        } else if code == 0x08 {
            Some(Exception::MemoryParityError)
        } else if code == 0x0A {
            Some(Exception::GatewayPathUnavailable)
        } else if code == 0x0B {
            Some(Exception::GatewayTargetDevice)
        } else {
            None
        }
    }

    /// The byte that stands for the reason on the wire.
    #[verifier::when_used_as_spec(spec_code)]
    pub fn code(self) -> (code: u8)
        ensures
            code == self.spec_code(),
            Self::spec_from_code(code) == Some(self),
    {
        match self {
            Exception::IllegalFunction => 0x01,
            Exception::IllegalDataAddress => 0x02,
            Exception::IllegalDataValue => 0x03,
            Exception::ServerDeviceFailure => 0x04,
            Exception::Acknowledge => 0x05,
            Exception::ServerDeviceBusy => 0x06,
            Exception::MemoryParityError => 0x08,
            Exception::GatewayPathUnavailable => 0x0A,
            Exception::GatewayTargetDevice => 0x0B,
        }
    }

    /// The reason a byte stands for; `None` for a byte that stands for none.
    pub fn from_code(code: u8) -> (exception: Option<Exception>)
        ensures
            exception == Self::spec_from_code(code),
            exception matches Some(e) ==> e.spec_code() == code,
    {
        if code == 0x01 {
            Some(Exception::IllegalFunction)
        } else if code == 0x02 {
            Some(Exception::IllegalDataAddress)
        } else if code == 0x03 {
            Some(Exception::IllegalDataValue)
        } else if code == 0x04 {
            Some(Exception::ServerDeviceFailure)
        } else if code == 0x05 {
            Some(Exception::Acknowledge)
        } else if code == 0x06 {
            Some(Exception::ServerDeviceBusy)
        } else if code == 0x08 {
            Some(Exception::MemoryParityError)
        } else if code == 0x0A {
            Some(Exception::GatewayPathUnavailable)
        } else if code == 0x0B {
            Some(Exception::GatewayTargetDevice)
        } else {
            None
        }
    }
}

/// What a client asks of a device.
#[derive(Debug, PartialEq, Eq)]
pub enum Request {
    ReadCoils(Address, Quantity),
    ReadDiscreteInputs(Address, Quantity),
    WriteSingleCoil(Address, Coil),
    WriteMultipleCoils(Address, Vec<Coil>),
    ReadInputRegisters(Address, Quantity),
    ReadHoldingRegisters(Address, Quantity),
    WriteSingleRegister(Address, Word),
    WriteMultipleRegisters(Address, Vec<Word>),
    /// Read address, read quantity, write address, values to write.
    ReadWriteMultipleRegisters(Address, Quantity, Address, Vec<Word>),
}

/// A request as a mathematical value.
pub enum RequestView {
    ReadCoils(Address, Quantity),
    ReadDiscreteInputs(Address, Quantity),
    WriteSingleCoil(Address, Coil),
    WriteMultipleCoils(Address, Seq<Coil>),
    ReadInputRegisters(Address, Quantity),
    ReadHoldingRegisters(Address, Quantity),
    WriteSingleRegister(Address, Word),
    WriteMultipleRegisters(Address, Seq<Word>),
    ReadWriteMultipleRegisters(Address, Quantity, Address, Seq<Word>),
}

impl RequestView {
    /// The operation that the request asks for.
    pub open spec fn function(self) -> FunctionCode {
        match self {
            RequestView::ReadCoils(..) => FunctionCode::ReadCoils,
            RequestView::ReadDiscreteInputs(..) => FunctionCode::ReadDiscreteInputs,
            RequestView::WriteSingleCoil(..) => FunctionCode::WriteSingleCoil,
            RequestView::WriteMultipleCoils(..) => FunctionCode::WriteMultipleCoils,
            RequestView::ReadInputRegisters(..) => FunctionCode::ReadInputRegisters,
            RequestView::ReadHoldingRegisters(..) => FunctionCode::ReadHoldingRegisters,
            RequestView::WriteSingleRegister(..) => FunctionCode::WriteSingleRegister,
            RequestView::WriteMultipleRegisters(..) => FunctionCode::WriteMultipleRegisters,
            RequestView::ReadWriteMultipleRegisters(..) => FunctionCode::ReadWriteMultipleRegisters,
        }
    }

    /// Whether the request respects the limits of the protocol: every count
    /// lies in the range that the Modbus application protocol gives for the
    /// function code, which is at least one and small enough for a frame of
    /// 256 bytes. A single coil or register can be written at any address
    /// with any value.
    pub open spec fn wf(self) -> bool {
        match self {
            RequestView::ReadCoils(_, quantity) => 1 <= quantity <= MAX_COILS_READ,
            RequestView::ReadDiscreteInputs(_, quantity) => 1 <= quantity <= MAX_COILS_READ,
            RequestView::WriteSingleCoil(..) => true,
            RequestView::WriteMultipleCoils(_, coils) => 1 <= coils.len() <= MAX_COILS_WRITTEN,
            RequestView::ReadInputRegisters(_, quantity) => 1 <= quantity <= MAX_REGISTERS_READ,
            RequestView::ReadHoldingRegisters(_, quantity) => 1 <= quantity <= MAX_REGISTERS_READ,
            RequestView::WriteSingleRegister(..) => true,
            RequestView::WriteMultipleRegisters(_, words) => 1 <= words.len()
                <= MAX_REGISTERS_WRITTEN,
            RequestView::ReadWriteMultipleRegisters(_, quantity, _, words) => 1 <= quantity
                <= MAX_REGISTERS_READ && 1 <= words.len() <= MAX_REGISTERS_EXCHANGED,
        }
    }
}

impl View for Request {
    type V = RequestView;

    open spec fn view(&self) -> RequestView {
        match self {
            Request::ReadCoils(a, q) => RequestView::ReadCoils(*a, *q),
            Request::ReadDiscreteInputs(a, q) => RequestView::ReadDiscreteInputs(*a, *q),
            Request::WriteSingleCoil(a, c) => RequestView::WriteSingleCoil(*a, *c),
            Request::WriteMultipleCoils(a, coils) => RequestView::WriteMultipleCoils(*a, coils@),
            Request::ReadInputRegisters(a, q) => RequestView::ReadInputRegisters(*a, *q),
            Request::ReadHoldingRegisters(a, q) => RequestView::ReadHoldingRegisters(*a, *q),
            Request::WriteSingleRegister(a, w) => RequestView::WriteSingleRegister(*a, *w),
            Request::WriteMultipleRegisters(a, words) => RequestView::WriteMultipleRegisters(
                *a,
                words@,
            ),
            Request::ReadWriteMultipleRegisters(ra, q, wa, words) => {
                RequestView::ReadWriteMultipleRegisters(*ra, *q, *wa, words@)
            },
        }
    }
}

impl Clone for Request {
    fn clone(&self) -> (copy: Self)
        ensures
            copy@ == self@,
    {
        match self {
            Request::ReadCoils(a, q) => Request::ReadCoils(*a, *q),
            Request::ReadDiscreteInputs(a, q) => Request::ReadDiscreteInputs(*a, *q),
            Request::WriteSingleCoil(a, c) => Request::WriteSingleCoil(*a, *c),
            Request::WriteMultipleCoils(a, coils) => Request::WriteMultipleCoils(
                *a,
                slice_to_vec(coils.as_slice()),
            ),
            Request::ReadInputRegisters(a, q) => Request::ReadInputRegisters(*a, *q),
            Request::ReadHoldingRegisters(a, q) => Request::ReadHoldingRegisters(*a, *q),
            Request::WriteSingleRegister(a, w) => Request::WriteSingleRegister(*a, *w),
            Request::WriteMultipleRegisters(a, words) => Request::WriteMultipleRegisters(
                *a,
                slice_to_vec(words.as_slice()),
            ),
            Request::ReadWriteMultipleRegisters(ra, q, wa, words) => {
                Request::ReadWriteMultipleRegisters(*ra, *q, *wa, slice_to_vec(words.as_slice()))
            },
        }
    }
}

impl Request {
    /// The operation that the request asks for.
    pub fn function(&self) -> (function: FunctionCode)
        ensures
            function == self@.function(),
    {
        match self {
            Request::ReadCoils(..) => FunctionCode::ReadCoils,
            Request::ReadDiscreteInputs(..) => FunctionCode::ReadDiscreteInputs,
            Request::WriteSingleCoil(..) => FunctionCode::WriteSingleCoil,
            Request::WriteMultipleCoils(..) => FunctionCode::WriteMultipleCoils,
            Request::ReadInputRegisters(..) => FunctionCode::ReadInputRegisters,
            Request::ReadHoldingRegisters(..) => FunctionCode::ReadHoldingRegisters,
            Request::WriteSingleRegister(..) => FunctionCode::WriteSingleRegister,
            Request::WriteMultipleRegisters(..) => FunctionCode::WriteMultipleRegisters,
            Request::ReadWriteMultipleRegisters(..) => FunctionCode::ReadWriteMultipleRegisters,
        }
    }

    /// Whether the request respects the limits of the protocol.
    pub fn is_valid(&self) -> (valid: bool)
        ensures
            valid == self@.wf(),
    {
        match self {
            Request::ReadCoils(_, quantity) => 1 <= *quantity && *quantity as usize
                <= MAX_COILS_READ,
            Request::ReadDiscreteInputs(_, quantity) => 1 <= *quantity && *quantity as usize
                <= MAX_COILS_READ,
            Request::WriteSingleCoil(..) => true,
            Request::WriteMultipleCoils(_, coils) => 1 <= coils.len() && coils.len()
                <= MAX_COILS_WRITTEN,
            Request::ReadInputRegisters(_, quantity) => 1 <= *quantity && *quantity as usize
                <= MAX_REGISTERS_READ,
            Request::ReadHoldingRegisters(_, quantity) => 1 <= *quantity && *quantity as usize
                <= MAX_REGISTERS_READ,
            Request::WriteSingleRegister(..) => true,
            Request::WriteMultipleRegisters(_, words) => 1 <= words.len() && words.len()
                <= MAX_REGISTERS_WRITTEN,
            Request::ReadWriteMultipleRegisters(_, quantity, _, words) => 1 <= *quantity
                && *quantity as usize <= MAX_REGISTERS_READ && 1 <= words.len() && words.len()
                <= MAX_REGISTERS_EXCHANGED,
        }
    }
}

/// What a device answers when it has done what was asked.
#[derive(Debug, PartialEq, Eq)]
pub enum Response {
    ReadCoils(Vec<Coil>),
    ReadDiscreteInputs(Vec<Coil>),
    WriteSingleCoil(Address, Coil),
    WriteMultipleCoils(Address, Quantity),
    ReadInputRegisters(Vec<Word>),
    ReadHoldingRegisters(Vec<Word>),
    WriteSingleRegister(Address, Word),
    WriteMultipleRegisters(Address, Quantity),
    ReadWriteMultipleRegisters(Vec<Word>),
}

/// A response as a mathematical value.
pub enum ResponseView {
    ReadCoils(Seq<Coil>),
    ReadDiscreteInputs(Seq<Coil>),
    WriteSingleCoil(Address, Coil),
    WriteMultipleCoils(Address, Quantity),
    ReadInputRegisters(Seq<Word>),
    ReadHoldingRegisters(Seq<Word>),
    WriteSingleRegister(Address, Word),
    WriteMultipleRegisters(Address, Quantity),
    ReadWriteMultipleRegisters(Seq<Word>),
}

impl ResponseView {
    /// The operation that the response reports on.
    pub open spec fn function(self) -> FunctionCode {
        match self {
            ResponseView::ReadCoils(..) => FunctionCode::ReadCoils,
            ResponseView::ReadDiscreteInputs(..) => FunctionCode::ReadDiscreteInputs,
            ResponseView::WriteSingleCoil(..) => FunctionCode::WriteSingleCoil,
            ResponseView::WriteMultipleCoils(..) => FunctionCode::WriteMultipleCoils,
            ResponseView::ReadInputRegisters(..) => FunctionCode::ReadInputRegisters,
            ResponseView::ReadHoldingRegisters(..) => FunctionCode::ReadHoldingRegisters,
            ResponseView::WriteSingleRegister(..) => FunctionCode::WriteSingleRegister,
            ResponseView::WriteMultipleRegisters(..) => FunctionCode::WriteMultipleRegisters,
            ResponseView::ReadWriteMultipleRegisters(..) => {
                FunctionCode::ReadWriteMultipleRegisters
            },
        }
    }

    /// Whether the response respects the limits of the protocol: every count
    /// lies in the range that the Modbus application protocol gives for the
    /// function code, which is at least one and small enough for a frame of
    /// 256 bytes.
    pub open spec fn wf(self) -> bool {
        match self {
            ResponseView::ReadCoils(coils) => 1 <= coils.len() <= MAX_COILS_READ,
            ResponseView::ReadDiscreteInputs(coils) => 1 <= coils.len() <= MAX_COILS_READ,
            ResponseView::WriteSingleCoil(..) => true,
            ResponseView::WriteMultipleCoils(_, quantity) => 1 <= quantity <= MAX_COILS_WRITTEN,
            ResponseView::ReadInputRegisters(words) => 1 <= words.len() <= MAX_REGISTERS_READ,
            ResponseView::ReadHoldingRegisters(words) => 1 <= words.len() <= MAX_REGISTERS_READ,
            ResponseView::WriteSingleRegister(..) => true,
            ResponseView::WriteMultipleRegisters(_, quantity) => 1 <= quantity
                <= MAX_REGISTERS_WRITTEN,
            ResponseView::ReadWriteMultipleRegisters(words) => 1 <= words.len()
                <= MAX_REGISTERS_READ,
        }
    }
}

impl View for Response {
    type V = ResponseView;

    open spec fn view(&self) -> ResponseView {
        match self {
            Response::ReadCoils(coils) => ResponseView::ReadCoils(coils@),
            Response::ReadDiscreteInputs(coils) => ResponseView::ReadDiscreteInputs(coils@),
            Response::WriteSingleCoil(a, c) => ResponseView::WriteSingleCoil(*a, *c),
            Response::WriteMultipleCoils(a, q) => ResponseView::WriteMultipleCoils(*a, *q),
            Response::ReadInputRegisters(words) => ResponseView::ReadInputRegisters(words@),
            Response::ReadHoldingRegisters(words) => ResponseView::ReadHoldingRegisters(words@),
            Response::WriteSingleRegister(a, w) => ResponseView::WriteSingleRegister(*a, *w),
            Response::WriteMultipleRegisters(a, q) => ResponseView::WriteMultipleRegisters(*a, *q),
            Response::ReadWriteMultipleRegisters(words) => {
                ResponseView::ReadWriteMultipleRegisters(words@)
            },
        }
    }
}

impl Clone for Response {
    fn clone(&self) -> (copy: Self)
        ensures
            copy@ == self@,
    {
        match self {
            Response::ReadCoils(coils) => Response::ReadCoils(slice_to_vec(coils.as_slice())),
            Response::ReadDiscreteInputs(coils) => Response::ReadDiscreteInputs(
                slice_to_vec(coils.as_slice()),
            ),
            Response::WriteSingleCoil(a, c) => Response::WriteSingleCoil(*a, *c),
            Response::WriteMultipleCoils(a, q) => Response::WriteMultipleCoils(*a, *q),
            Response::ReadInputRegisters(words) => Response::ReadInputRegisters(
                slice_to_vec(words.as_slice()),
            ),
            Response::ReadHoldingRegisters(words) => Response::ReadHoldingRegisters(
                slice_to_vec(words.as_slice()),
            ),
            Response::WriteSingleRegister(a, w) => Response::WriteSingleRegister(*a, *w),
            Response::WriteMultipleRegisters(a, q) => Response::WriteMultipleRegisters(*a, *q),
            Response::ReadWriteMultipleRegisters(words) => Response::ReadWriteMultipleRegisters(
                slice_to_vec(words.as_slice()),
            ),
        }
    }
}

impl Response {
    /// The operation that the response reports on.
    pub fn function(&self) -> (function: FunctionCode)
        ensures
            function == self@.function(),
    {
        match self {
            Response::ReadCoils(..) => FunctionCode::ReadCoils,
            Response::ReadDiscreteInputs(..) => FunctionCode::ReadDiscreteInputs,
            Response::WriteSingleCoil(..) => FunctionCode::WriteSingleCoil,
            Response::WriteMultipleCoils(..) => FunctionCode::WriteMultipleCoils,
            Response::ReadInputRegisters(..) => FunctionCode::ReadInputRegisters,
            Response::ReadHoldingRegisters(..) => FunctionCode::ReadHoldingRegisters,
            Response::WriteSingleRegister(..) => FunctionCode::WriteSingleRegister,
            Response::WriteMultipleRegisters(..) => FunctionCode::WriteMultipleRegisters,
            Response::ReadWriteMultipleRegisters(..) => FunctionCode::ReadWriteMultipleRegisters,
        }
    }

    /// Whether the response respects the limits of the protocol.
    pub fn is_valid(&self) -> (valid: bool)
        ensures
            valid == self@.wf(),
    {
        match self {
            Response::ReadCoils(coils) => 1 <= coils.len() && coils.len() <= MAX_COILS_READ,
            Response::ReadDiscreteInputs(coils) => 1 <= coils.len() && coils.len()
                <= MAX_COILS_READ,
            Response::WriteSingleCoil(..) => true,
            Response::WriteMultipleCoils(_, quantity) => 1 <= *quantity && *quantity as usize
                <= MAX_COILS_WRITTEN,
            Response::ReadInputRegisters(words) => 1 <= words.len() && words.len()
                <= MAX_REGISTERS_READ,
            Response::ReadHoldingRegisters(words) => 1 <= words.len() && words.len()
                <= MAX_REGISTERS_READ,
            Response::WriteSingleRegister(..) => true,
            Response::WriteMultipleRegisters(_, quantity) => 1 <= *quantity && *quantity as usize
                <= MAX_REGISTERS_WRITTEN,
            Response::ReadWriteMultipleRegisters(words) => 1 <= words.len() && words.len()
                <= MAX_REGISTERS_READ,
        }
    }
}

/// What a device answers when it refuses: the operation that was asked for
/// and the reason.
#[derive(Clone, Copy, Debug, PartialEq, Eq, Structural)]
pub struct ExceptionResponse {
    pub function: FunctionCode,
    pub exception: Exception,
}

/// A reply as a mathematical value: a response, or a refusal.
pub type ReplyView = Result<ResponseView, ExceptionResponse>;

/// Whether a reply respects the limits of the protocol.
pub open spec fn reply_wf(reply: ReplyView) -> bool {
    match reply {
        Ok(response) => response.wf(),
        Err(_) => true,
    }
}

/// The operation that a reply is about.
pub open spec fn reply_function(reply: ReplyView) -> FunctionCode {
    match reply {
        Ok(response) => response.function(),
        Err(refusal) => refusal.function,
    }
}

/// The mathematical value of a reply.
pub open spec fn reply_view(reply: Result<Response, ExceptionResponse>) -> ReplyView {
    match reply {
        Ok(response) => Ok(response@),
        Err(refusal) => Err(refusal),
    }
}

/// A request that respects the limits of the protocol.
#[derive(Debug, PartialEq, Eq)]
pub struct RequestPdu {
    request: Request,
}

impl View for RequestPdu {
    type V = RequestView;

    closed spec fn view(&self) -> RequestView {
        self.request@
    }
}

impl Clone for RequestPdu {
    fn clone(&self) -> (copy: Self)
        ensures
            copy@ == self@,
    {
        proof {
            use_type_invariant(self);
        }
        RequestPdu { request: self.request.clone() }
    }
}

impl RequestPdu {
    #[verifier::type_invariant]
    spec fn inv(self) -> bool {
        self.request@.wf()
    }

    /// Admits a request as a PDU if it respects the limits of the protocol.
    pub fn new(request: Request) -> (pdu: Option<RequestPdu>)
        ensures
            request@.wf() ==> pdu is Some && pdu->0@ == request@,
            !request@.wf() ==> pdu is None,
    {
        if request.is_valid() {
            Some(RequestPdu { request })
        } else {
            None
        }
    }

    /// The request that the PDU carries.
    pub fn request(&self) -> (request: &Request)
        ensures
            request@ == self@,
            self@.wf(),
    {
        proof {
            use_type_invariant(self);
        }
        &self.request
    }

    /// Gives up the PDU for the request that it carries.
    pub fn into_request(self) -> (request: Request)
        ensures
            request@ == self@,
            self@.wf(),
    {
        proof {
            use_type_invariant(&self);
        }
        self.request
    }
}

/// A reply that respects the limits of the protocol: a response, or a
/// refusal.
#[derive(Debug, PartialEq, Eq)]
pub struct ResponsePdu {
    reply: Result<Response, ExceptionResponse>,
}

impl View for ResponsePdu {
    type V = ReplyView;

    closed spec fn view(&self) -> ReplyView {
        reply_view(self.reply)
    }
}

impl Clone for ResponsePdu {
    fn clone(&self) -> (copy: Self)
        ensures
            copy@ == self@,
    {
        proof {
            use_type_invariant(self);
        }
        match &self.reply {
            Ok(response) => ResponsePdu { reply: Ok(response.clone()) },
            Err(refusal) => ResponsePdu { reply: Err(*refusal) },
        }
    }
}

impl ResponsePdu {
    #[verifier::type_invariant]
    spec fn inv(self) -> bool {
        reply_wf(reply_view(self.reply))
    }

    /// Admits a reply as a PDU if it respects the limits of the protocol.
    pub fn new(reply: Result<Response, ExceptionResponse>) -> (pdu: Option<ResponsePdu>)
        ensures
            reply_wf(reply_view(reply)) ==> pdu is Some && pdu->0@ == reply_view(reply),
            !reply_wf(reply_view(reply)) ==> pdu is None,
    {
        let valid = match &reply {
            Ok(response) => response.is_valid(),
            Err(_) => true,
        };
        if valid {
            Some(ResponsePdu { reply })
        } else {
            None
        }
    }

    /// The PDU of a refusal; a refusal always respects the limits.
    pub fn exception(function: FunctionCode, exception: Exception) -> (pdu: ResponsePdu)
        ensures
            pdu@ == Err::<ResponseView, ExceptionResponse>(
                ExceptionResponse { function, exception },
            ),
    {
        ResponsePdu { reply: Err(ExceptionResponse { function, exception }) }
    }

    /// The reply that the PDU carries.
    pub fn reply(&self) -> (reply: &Result<Response, ExceptionResponse>)
        ensures
            reply_view(*reply) == self@,
            reply_wf(self@),
    {
        proof {
            use_type_invariant(self);
        }
        &self.reply
    }

    /// Gives up the PDU for the reply that it carries.
    pub fn into_reply(self) -> (reply: Result<Response, ExceptionResponse>)
        ensures
            reply_view(reply) == self@,
            reply_wf(self@),
    {
        proof {
            use_type_invariant(&self);
        }
        self.reply
    }
}

/// The header of an RTU frame: the address of the device that the frame is
/// for, or from.
#[derive(Clone, Copy, Debug, PartialEq, Eq, Structural)]
pub struct Header {
    slave_id: SlaveId,
}

impl View for Header {
    type V = SlaveId;

    closed spec fn view(&self) -> SlaveId {
        self.slave_id
    }
}

impl Header {
    #[verifier::type_invariant]
    spec fn inv(self) -> bool {
        self.slave_id <= MAX_SLAVE_ID
    }

    /// The header for a device address; `None` for an address above the
    /// highest that a device can have.
    pub fn new(slave_id: SlaveId) -> (hdr: Option<Header>)
        ensures
            slave_id <= MAX_SLAVE_ID ==> hdr is Some && hdr->0@ == slave_id,
            slave_id > MAX_SLAVE_ID ==> hdr is None,
    {
        if slave_id <= MAX_SLAVE_ID {
            Some(Header { slave_id })
        } else {
            None
        }
    }

    /// The header that addresses every device at once.
    pub fn broadcast() -> (hdr: Header)
        ensures
            hdr@ == 0,
    {
        Header { slave_id: 0 }
    }

    /// The device address.
    pub fn slave_id(&self) -> (slave_id: SlaveId)
        ensures
            slave_id == self@,
            slave_id <= MAX_SLAVE_ID,
    {
        proof {
            use_type_invariant(self);
        }
        self.slave_id
    }

    /// Whether the header addresses every device at once.
    pub fn is_broadcast(&self) -> (broadcast: bool)
        ensures
            broadcast == (self@ == 0),
    {
        self.slave_id == 0
    }
}

/// A request on its way to a device.
#[derive(Debug, PartialEq, Eq)]
pub struct RequestAdu {
    pub hdr: Header,
    pub pdu: RequestPdu,
}

/// A request ADU as a mathematical value.
pub struct RequestAduView {
    pub slave_id: SlaveId,
    pub request: RequestView,
}

impl RequestAduView {
    /// Whether the address and the request respect the limits of the
    /// protocol.
    pub open spec fn wf(self) -> bool {
        self.slave_id <= MAX_SLAVE_ID && self.request.wf()
    }
}

impl Clone for RequestAdu {
    fn clone(&self) -> (copy: Self)
        ensures
            copy@ == self@,
    {
        RequestAdu { hdr: self.hdr, pdu: self.pdu.clone() }
    }
}

impl View for RequestAdu {
    type V = RequestAduView;

    open spec fn view(&self) -> RequestAduView {
        RequestAduView { slave_id: self.hdr@, request: self.pdu@ }
    }
}

/// A reply on its way back from a device.
#[derive(Debug, PartialEq, Eq)]
pub struct ResponseAdu {
    pub hdr: Header,
    pub pdu: ResponsePdu,
}

/// A response ADU as a mathematical value.
pub struct ResponseAduView {
    pub slave_id: SlaveId,
    pub reply: ReplyView,
}

impl ResponseAduView {
    /// Whether the address and the reply respect the limits of the protocol.
    pub open spec fn wf(self) -> bool {
        self.slave_id <= MAX_SLAVE_ID && reply_wf(self.reply)
    }
}

impl Clone for ResponseAdu {
    fn clone(&self) -> (copy: Self)
        ensures
            copy@ == self@,
    {
        ResponseAdu { hdr: self.hdr, pdu: self.pdu.clone() }
    }
}

impl View for ResponseAdu {
    type V = ResponseAduView;

    open spec fn view(&self) -> ResponseAduView {
        ResponseAduView { slave_id: self.hdr@, reply: self.pdu@ }
    }
}

} // verus!
