//! What can be wrong with the bytes of a frame.

use vstd::prelude::*;

verus! {

/// A violation of the framing rules. Each one is fatal to its connection:
/// no attempt is made to find the start of a later frame.
#[derive(Clone, Copy, Debug, PartialEq, Eq, Structural)]
pub enum ProtocolError {
    /// One of the three reserved bits is set, and no extension was
    /// negotiated that could give it a meaning.
    ReservedBits,
    /// The opcode is none of the six defined ones.
    UnknownOpcode,
    /// The frame is a continuation frame; fragmented messages are not
    /// supported.
    Fragmented,
    /// A Close or Ping frame announces more than 125 bytes of payload.
    ControlTooLong,
    /// The payload of a Text frame is not valid UTF-8.
    InvalidUtf8,
}

/// Why no frame could be taken from a buffer.
#[derive(Clone, Copy, Debug, PartialEq, Eq, Structural)]
pub enum FrameError {
    /// The buffer ends before the frame does. With more bytes from the
    /// peer the frame may still turn out well; at the end of the stream it
    /// is a read failure.
    Incomplete,
    /// The bytes at hand already break a rule, whatever follows them.
    Protocol(ProtocolError),
}

} // verus!
