//! The four-bit tag that says what a frame is for.

use vstd::prelude::*;

verus! {

/// The purpose of a frame. `CloseOp`, `PingOp` and `PongOp` are control
/// frames; `TextOp` and `BinaryOp` carry application data; `ContinuationOp`
/// marks a fragment, which this engine does not reassemble.
#[derive(Clone, Copy, Debug, PartialEq, Eq, Structural)]
pub enum Opcode {
    ContinuationOp,
    TextOp,
    BinaryOp,
    CloseOp,
    PingOp,
    PongOp,
}

impl Opcode {
    /// The number that stands for this opcode on the wire.
    pub open spec fn code(self) -> u8 {
        match self {
            Opcode::ContinuationOp => 0x0,
            Opcode::TextOp => 0x1,
            Opcode::BinaryOp => 0x2,
            Opcode::CloseOp => 0x8,
            Opcode::PingOp => 0x9,
            Opcode::PongOp => 0xA,
        }
    }

    /// The opcode that a wire number stands for, if it is one of the six.
    pub open spec fn from_code(code: u8) -> Option<Opcode> {
        if code == 0x0 {
            Some(Opcode::ContinuationOp)
        } else if code == 0x1 {
            Some(Opcode::TextOp)
        } else if code == 0x2 {
            Some(Opcode::BinaryOp)
        } else if code == 0x8 {
            Some(Opcode::CloseOp)
        } else if code == 0x9 {
            Some(Opcode::PingOp)
        } else if code == 0xA {
            Some(Opcode::PongOp)
        } else {
            None
        }
    }

    /// Control frames manage the connection and never reach the application.
    pub open spec fn is_control(self) -> bool {
        self is CloseOp || self is PingOp || self is PongOp
    }

    /// The control frames whose payload may not exceed 125 bytes.
    pub open spec fn is_length_limited(self) -> bool {
        self is CloseOp || self is PingOp
    }

    /// The wire number of this opcode.
    pub fn to_u8(self) -> (code: u8)
        ensures
            code == self.code(),
            code < 16,
    {
        match self {
            Opcode::ContinuationOp => 0x0,
            Opcode::TextOp => 0x1,
            Opcode::BinaryOp => 0x2,
            Opcode::CloseOp => 0x8,
            Opcode::PingOp => 0x9,
            Opcode::PongOp => 0xA,
        }
    }

    /// Reads a wire number: `Some` for the six defined opcodes, `None` for
    /// every other number.
    pub fn from_u8(code: u8) -> (opcode: Option<Opcode>)
        ensures
            opcode == Opcode::from_code(code),
    {
        match code {
            0x0 => Some(Opcode::ContinuationOp),
            0x1 => Some(Opcode::TextOp),
            0x2 => Some(Opcode::BinaryOp),
            0x8 => Some(Opcode::CloseOp),
            0x9 => Some(Opcode::PingOp),
            0xA => Some(Opcode::PongOp),
            _ => None,
        }
    }
}

/// Reading the wire number of an opcode gives the opcode back, and a number
/// that reads as an opcode is that opcode's wire number.
pub proof fn lemma_opcode_code_round_trip(opcode: Opcode, code: u8)
    ensures
        Opcode::from_code(opcode.code()) == Some(opcode),
        Opcode::from_code(code) == Some(opcode) ==> opcode.code() == code,
{
}

} // verus!
