//! Messages: what the application sends and receives. One message travels
//! in exactly one frame.

use vstd::prelude::*;
use vstd::utf8::{decode_utf8, encode_utf8, encode_utf8_decode_utf8, encode_utf8_valid_utf8,
    valid_utf8};
use crate::error::{FrameError, ProtocolError};
use crate::frame::{encode_frame, lemma_decode_encode, lemma_parsed_frame_acceptable, parse_frame,
    read_frame, write_frame_bytes, Frame, FrameView};

pub use crate::opcode::Opcode;
pub use crate::opcode::Opcode::{BinaryOp, CloseOp, ContinuationOp, PingOp, PongOp, TextOp};
pub use self::Payload::{Binary, Empty, Text};

verus! {

/// What a message carries.
#[derive(Debug, PartialEq, Eq)]
pub enum Payload {
    /// Text; on the wire, its UTF-8 bytes.
    Text(String),
    /// Raw bytes.
    Binary(Vec<u8>),
    /// Nothing: the payload of a Close notification.
    Empty,
}

/// The mathematical value of a [`Payload`].
pub enum PayloadView {
    Text(Seq<char>),
    Binary(Seq<u8>),
    Empty,
}

impl View for Payload {
    type V = PayloadView;

    open spec fn view(&self) -> PayloadView {
        match self {
            Payload::Text(text) => PayloadView::Text(text@),
            Payload::Binary(bytes) => PayloadView::Binary(bytes@),
            Payload::Empty => PayloadView::Empty,
        }
    }
}

impl PayloadView {
    /// The bytes that stand for the payload in a frame.
    pub open spec fn bytes(self) -> Seq<u8> {
        match self {
            PayloadView::Text(text) => encode_utf8(text),
            PayloadView::Binary(bytes) => bytes,
            PayloadView::Empty => Seq::empty(),
        }
    }
}

/// A payload and the opcode of the frame that carries it.
#[derive(Debug, PartialEq, Eq)]
pub struct Message {
    pub payload: Payload,
    pub opcode: Opcode,
}

/// The mathematical value of a [`Message`].
pub struct MessageView {
    pub payload: PayloadView,
    pub opcode: Opcode,
}

impl View for Message {
    type V = MessageView;

    open spec fn view(&self) -> MessageView {
        MessageView { payload: self.payload@, opcode: self.opcode }
    }
}

impl MessageView {
    /// The bytes of the one frame that carries the message to the peer.
    pub open spec fn wire_bytes(self) -> Seq<u8> {
        encode_frame(self.opcode, self.payload.bytes())
    }

    /// A message as the decoder produces them: text under `TextOp`; raw
    /// bytes under `BinaryOp`, `PingOp` (at most 125 of them) or `PongOp`;
    /// nothing under `CloseOp`.
    pub open spec fn decodable(self) -> bool {
        match self.payload {
            PayloadView::Text(_) => self.opcode == Opcode::TextOp,
            PayloadView::Binary(bytes) => self.opcode == Opcode::BinaryOp || self.opcode
                == Opcode::PongOp || (self.opcode == Opcode::PingOp && bytes.len() <= 125),
            PayloadView::Empty => self.opcode == Opcode::CloseOp,
        }
    }
}

/// The message that a frame carries. The payload of a Text frame must be
/// valid UTF-8; that of a Binary, Ping or Pong frame is taken as it is;
/// that of a Close frame is dropped.
pub open spec fn message_of_frame(frame: FrameView) -> Result<MessageView, ProtocolError> {
    match frame.opcode {
        Opcode::ContinuationOp => Err(ProtocolError::Fragmented),
        Opcode::TextOp => if valid_utf8(frame.payload) {
            Ok(
                MessageView {
                    payload: PayloadView::Text(decode_utf8(frame.payload)),
                    opcode: Opcode::TextOp,
                },
            )
        } else {
            Err(ProtocolError::InvalidUtf8)
        },
        Opcode::CloseOp => Ok(MessageView { payload: PayloadView::Empty, opcode: Opcode::CloseOp }),
        opcode => Ok(MessageView { payload: PayloadView::Binary(frame.payload), opcode }),
    }
}

/// The message at the start of `bytes` and the number of bytes it takes,
/// or the reason why there is none.
pub open spec fn parse_message(bytes: Seq<u8>) -> Result<(MessageView, nat), FrameError> {
    match parse_frame(bytes) {
        Err(e) => Err(e),
        Ok((frame, used)) => match message_of_frame(frame) {
            Err(e) => Err(FrameError::Protocol(e)),
            Ok(message) => Ok((message, used)),
        },
    }
}

/// `String::from_utf8` of std: the string that the bytes encode in UTF-8,
/// and `None` exactly when the bytes are not valid UTF-8.
#[verifier::external_body]
fn string_from_utf8(bytes: Vec<u8>) -> (result: Option<String>)
    ensures
        result is Some <==> valid_utf8(bytes@),
        result matches Some(text) ==> text@ == decode_utf8(bytes@),
{
    String::from_utf8(bytes).ok()
}

impl Payload {
    /// The bytes that stand for the payload in a frame.
    pub fn as_bytes(&self) -> (bytes: &[u8])
        ensures
            bytes@ == self@.bytes(),
    {
        match self {
            Payload::Text(text) => text.as_str().as_bytes(),
            Payload::Binary(bytes) => bytes.as_slice(),
            Payload::Empty => &[],
        }
    }
}

impl Clone for Payload {
    fn clone(&self) -> (copy: Payload)
        ensures
            copy@ == self@,
    {
        match self {
            Payload::Text(text) => Payload::Text(text.clone()),
            Payload::Binary(bytes) => Payload::Binary(bytes.clone()),
            Payload::Empty => Payload::Empty,
        }
    }
}

impl Clone for Message {
    fn clone(&self) -> (copy: Message)
        ensures
            copy@ == self@,
    {
        Message { payload: self.payload.clone(), opcode: self.opcode }
    }
}

impl Message {
    /// Turns a decoded frame into the message it carries.
    pub fn from_frame(frame: Frame) -> (result: Result<Message, ProtocolError>)
        ensures
            match message_of_frame(frame@) {
                Ok(message) => result matches Ok(m) && m@ == message,
                Err(e) => result matches Err(x) && x == e,
            },
    {
        match frame.opcode {
            Opcode::ContinuationOp => Err(ProtocolError::Fragmented),
            Opcode::TextOp => match string_from_utf8(frame.payload) {
                Some(text) => Ok(Message { payload: Payload::Text(text), opcode: Opcode::TextOp }),
                None => Err(ProtocolError::InvalidUtf8),
            },
            Opcode::CloseOp => Ok(Message { payload: Payload::Empty, opcode: Opcode::CloseOp }),
            Opcode::BinaryOp => Ok(
                Message { payload: Payload::Binary(frame.payload), opcode: Opcode::BinaryOp },
            ),
            Opcode::PingOp => Ok(
                Message { payload: Payload::Binary(frame.payload), opcode: Opcode::PingOp },
            ),
            Opcode::PongOp => Ok(
                Message { payload: Payload::Binary(frame.payload), opcode: Opcode::PongOp },
            ),
        }
    }

    /// Takes one message from the start of `stream`, the bytes received
    /// from the peer so far, and says how many of them it used.
    ///
    /// `Err(FrameError::Incomplete)` asks for more bytes: the frame may
    /// still turn out well. Every other error is final.
    pub fn load(stream: &[u8]) -> (result: Result<(Box<Message>, usize), FrameError>)
        ensures
            match parse_message(stream@) {
                Ok((message, used)) => result matches Ok((m, n)) && m@ == message && n == used,
                Err(e) => result matches Err(x) && x == e,
            },
            result matches Ok((m, n)) ==> m@.decodable() && 2 <= n <= stream@.len(),
    {
        proof {
            lemma_loaded_message_decodable(stream@);
        }
        let (frame, used) = match read_frame(stream) {
            Err(e) => {
                return Err(e);
            },
            Ok(pair) => pair,
        };
        match Message::from_frame(frame) {
            Err(e) => Err(FrameError::Protocol(e)),
            Ok(message) => Ok((Box::new(message), used)),
        }
    }

    /// Appends to `stream`, the bytes on their way to the peer, the one
    /// frame that carries this message: final, unmasked, with the
    /// shortest length field that holds the payload's length.
    pub fn send(&self, stream: &mut Vec<u8>)
        ensures
            final(stream)@ == old(stream)@ + self@.wire_bytes(),
    {
        write_frame_bytes(stream, self.opcode, self.payload.as_bytes());
    }
}

/// A loaded message is one that the decoder can produce: its payload is of
/// the kind that belongs to its opcode, and a Ping has at most 125 bytes.
pub proof fn lemma_loaded_message_decodable(bytes: Seq<u8>)
    ensures
        parse_message(bytes) matches Ok((message, used)) ==> message.decodable() && 2 <= used
            <= bytes.len(),
{
    lemma_parsed_frame_acceptable(bytes);
}

/// Loading what `send` wrote gives the message back, for every message
/// that the decoder can produce and whatever bytes follow it; and `load`
/// takes exactly the bytes that `send` wrote.
pub proof fn lemma_load_send(message: MessageView, rest: Seq<u8>)
    requires
        message.decodable(),
        message.payload.bytes().len() <= u64::MAX,
    ensures
        parse_message(message.wire_bytes() + rest) == Ok::<(MessageView, nat), FrameError>(
            (message, message.wire_bytes().len()),
        ),
{
    let frame = FrameView {
        fin: true,
        opcode: message.opcode,
        masked: false,
        payload: message.payload.bytes(),
    };
    lemma_decode_encode(frame, rest);
    match message.payload {
        PayloadView::Text(text) => {
            encode_utf8_valid_utf8(text);
            encode_utf8_decode_utf8(text);
        },
        PayloadView::Binary(bytes) => {},
        PayloadView::Empty => {},
    }
}

} // verus!
