//! A password vault for a constrained device: bounded strings, the record
//! store, the transport codec for export and import, and the command
//! protocol as an explicit state machine.

pub mod buffer;
pub mod cipher;
pub mod codec;
pub mod display;
pub mod generator;
pub mod password;
pub mod protocol;
pub mod session;
pub mod status;
pub mod store;
