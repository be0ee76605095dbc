//! Modbus over a serial line: the RTU frame model, its checksum and codec,
//! and the request/response discipline of a server and a client, as pure
//! functions and state machines with machine-checked contracts.
//!
//! Nothing here touches a transport. Bytes come in and go out as slices and
//! vectors, and whoever owns the serial port tells the state machines what
//! happened on it.

pub mod crc;
pub mod wire;
pub mod frame;
pub mod format;
pub mod codec;
pub mod theorems;
pub mod service;
pub mod server;
pub mod traces;
pub mod process;
pub mod client;
pub mod exchange;
