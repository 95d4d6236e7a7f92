//! A WebSocket protocol engine: the opening handshake, the wire framing of
//! messages, and the decisions of a connection from handshake to close.
//!
//! Every function works on plain values (bytes, strings, the types of this
//! crate); reading from and writing to a socket is left to the caller.

pub mod opcode;
pub mod endian;
pub mod mask;
pub mod error;
pub mod frame;
pub mod message;
pub mod digest;
pub mod handshake;
pub mod session;
