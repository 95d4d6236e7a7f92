//! The wire format of a single frame, and the codec between frames and
//! bytes.
//!
//! ```text
//! byte 0: FIN (1 bit) | RSV (3 bits, zero) | OPCODE (4 bits)
//! byte 1: MASK (1 bit) | LEN7 (7 bits)
//!   LEN7 in 0..=125 : the payload length
//!   LEN7 == 126     : the next 2 bytes, big-endian, are the payload length
//!   LEN7 == 127     : the next 8 bytes, big-endian, are the payload length
//! if MASK: the next 4 bytes are the masking key
//! payload, XOR-ed with the repeating masking key if MASK
//! ```

use vstd::prelude::*;
use vstd::slice::{slice_subrange, slice_to_vec};
use crate::endian::{be_bytes, be_value, lemma_be_bytes_len, lemma_be_value_bound,
    lemma_be_value_of_be_bytes, lemma_pow256_values, push_be, read_be};
use crate::error::{FrameError, ProtocolError};
use crate::mask::{apply_mask, lemma_mask_involution, masked};
use crate::opcode::Opcode;

verus! {

/// One unit of the wire: a header, and a payload that is held unmasked.
#[derive(Debug)]
pub struct Frame {
    /// The final-fragment marker of the first header byte.
    pub fin: bool,
    /// What the frame is for.
    pub opcode: Opcode,
    /// Whether the payload travelled masked.
    pub masked: bool,
    /// The payload, unmasked.
    pub payload: Vec<u8>,
}

/// The mathematical value of a [`Frame`].
pub struct FrameView {
    pub fin: bool,
    pub opcode: Opcode,
    pub masked: bool,
    pub payload: Seq<u8>,
}

impl View for Frame {
    type V = FrameView;

    open spec fn view(&self) -> FrameView {
        FrameView { fin: self.fin, opcode: self.opcode, masked: self.masked, payload: self.payload@ }
    }
}

impl FrameView {
    /// A frame that a decoder accepts: not a continuation frame, and with
    /// at most 125 bytes of payload if it is a Close or a Ping.
    pub open spec fn acceptable(self) -> bool {
        &&& self.opcode != Opcode::ContinuationOp
        &&& self.opcode.is_length_limited() ==> self.payload.len() <= 125
    }

    /// The frame as the encoder puts it on the wire and a decoder reads it
    /// back: final, unmasked, with the same opcode and payload.
    pub open spec fn as_sent(self) -> FrameView {
        FrameView { fin: true, opcode: self.opcode, masked: false, payload: self.payload }
    }
}

/// Everything of a frame that precedes its payload.
#[derive(Clone, Copy, Debug)]
pub struct FrameHeader {
    /// The final-fragment marker.
    pub fin: bool,
    /// What the frame is for.
    pub opcode: Opcode,
    /// The masking key, if the payload is masked.
    pub mask_key: Option<[u8; 4]>,
    /// The number of payload bytes that follow the header.
    pub payload_len: u64,
    /// The number of bytes that the header itself takes: 2 to 14.
    pub header_len: usize,
}

/// The mathematical value of a [`FrameHeader`].
pub struct HeaderView {
    pub fin: bool,
    pub opcode: Opcode,
    pub mask_key: Option<Seq<u8>>,
    pub payload_len: nat,
    pub header_len: nat,
}

impl View for FrameHeader {
    type V = HeaderView;

    open spec fn view(&self) -> HeaderView {
        HeaderView {
            fin: self.fin,
            opcode: self.opcode,
            mask_key: match self.mask_key {
                Some(key) => Some(key@),
                None => None,
            },
            payload_len: self.payload_len as nat,
            header_len: self.header_len as nat,
        }
    }
}

/// The final-fragment bit of the first header byte.
pub open spec fn fin_bit(b0: u8) -> bool {
    b0 >= 0x80
}

/// The three reserved bits of the first header byte, as a number 0..=7.
pub open spec fn reserved_bits(b0: u8) -> int {
    (b0 as int / 16) % 8
}

/// The low four bits of the first header byte.
pub open spec fn opcode_bits(b0: u8) -> u8 {
    (b0 % 16) as u8
}

/// The mask bit of the second header byte.
pub open spec fn mask_bit(b1: u8) -> bool {
    b1 >= 0x80
}

/// The seven-bit length field of the second header byte.
pub open spec fn length_bits(b1: u8) -> u8 {
    (b1 % 128) as u8
}

/// How many bytes of extended length follow a seven-bit length field.
pub open spec fn extended_length_width(len7: u8) -> int {
    if len7 == 126 {
        2
    } else if len7 == 127 {
        8
    } else {
        0
    }
}

/// The payload length that the header at the start of `bytes` announces.
pub open spec fn announced_length(bytes: Seq<u8>) -> nat
    recommends
        bytes.len() >= 2 + extended_length_width(length_bits(bytes[1])),
{
    let len7 = length_bits(bytes[1]);
    let width = extended_length_width(len7);
    if width == 0 {
        len7 as nat
    } else {
        be_value(bytes.subrange(2, 2 + width))
    }
}

/// The header at the start of `bytes`, or the reason why there is none.
///
/// The checks come in the order of the bytes they need: the reserved bits
/// and the opcode from the first byte, the length field next, the limit
/// on control frames once the length is known, the masking key last.
/// `Incomplete` is returned only where the bytes so far break no rule.
pub open spec fn parse_header(bytes: Seq<u8>) -> Result<HeaderView, FrameError> {
    if bytes.len() < 2 {
        Err(FrameError::Incomplete)
    } else if reserved_bits(bytes[0]) != 0 {
        Err(FrameError::Protocol(ProtocolError::ReservedBits))
    } else {
        match Opcode::from_code(opcode_bits(bytes[0])) {
            None => Err(FrameError::Protocol(ProtocolError::UnknownOpcode)),
            Some(Opcode::ContinuationOp) => Err(FrameError::Protocol(ProtocolError::Fragmented)),
            Some(opcode) => {
                let len7 = length_bits(bytes[1]);
                let width = extended_length_width(len7);
                if bytes.len() < 2 + width {
                    Err(FrameError::Incomplete)
                } else {
                    let payload_len = announced_length(bytes);
                    if opcode.is_length_limited() && payload_len > 125 {
                        Err(FrameError::Protocol(ProtocolError::ControlTooLong))
                    } else if !mask_bit(bytes[1]) {
                        Ok(
                            HeaderView {
                                fin: fin_bit(bytes[0]),
                                opcode,
                                mask_key: None,
                                payload_len,
                                header_len: (2 + width) as nat,
                            },
                        )
                    } else if bytes.len() < 2 + width + 4 {
                        Err(FrameError::Incomplete)
                    } else {
                        Ok(
                            HeaderView {
                                fin: fin_bit(bytes[0]),
                                opcode,
                                mask_key: Some(bytes.subrange(2 + width, 2 + width + 4)),
                                payload_len,
                                header_len: (2 + width + 4) as nat,
                            },
                        )
                    }
                }
            },
        }
    }
}

/// The frame at the start of `bytes` and the number of bytes it takes, or
/// the reason why there is none. Bytes after the frame are not looked at.
pub open spec fn parse_frame(bytes: Seq<u8>) -> Result<(FrameView, nat), FrameError> {
    match parse_header(bytes) {
        Err(e) => Err(e),
        Ok(header) => {
            let end = header.header_len + header.payload_len;
            if bytes.len() < end {
                Err(FrameError::Incomplete)
            } else {
                let raw = bytes.subrange(header.header_len as int, end as int);
                Ok(
                    (
                        FrameView {
                            fin: header.fin,
                            opcode: header.opcode,
                            masked: header.mask_key is Some,
                            payload: match header.mask_key {
                                Some(key) => masked(raw, key),
                                None => raw,
                            },
                        },
                        end,
                    ),
                )
            }
        },
    }
}

/// The length of a payload as the encoder writes it: the shortest of the
/// three forms that can hold it.
pub open spec fn length_field(len: nat) -> Seq<u8> {
    if len <= 125 {
        seq![len as u8]
    } else if len <= 65535 {
        seq![126u8] + be_bytes(len, 2)
    } else {
        seq![127u8] + be_bytes(len, 8)
    }
}

/// The bytes of a frame as the encoder writes it: final, with no reserved
/// bit set, unmasked.
pub open spec fn encode_frame(opcode: Opcode, payload: Seq<u8>) -> Seq<u8> {
    seq![(0x80 + opcode.code()) as u8] + length_field(payload.len()) + payload
}

/// The bytes of a frame as a client writes it: final, with no reserved
/// bit set, with the mask bit set, the key after the length, and the
/// payload masked with the key.
pub open spec fn encode_masked_frame(opcode: Opcode, payload: Seq<u8>, key: Seq<u8>) -> Seq<u8>
    recommends
        key.len() == 4,
{
    let length = length_field(payload.len());
    seq![(0x80 + opcode.code()) as u8] + length.update(0, (0x80 + length[0]) as u8) + key
        + masked(payload, key)
}

/// Reads the header of the frame at the start of `source`.
pub fn read_header(source: &[u8]) -> (result: Result<FrameHeader, FrameError>)
    ensures
        match parse_header(source@) {
            Ok(header) => result matches Ok(h) && h@ == header,
            Err(e) => result matches Err(x) && x == e,
        },
{
    let total = source.len();
    if total < 2 {
        return Err(FrameError::Incomplete);
    }
    let b0: u8 = source[0];
    let b1: u8 = source[1];
    let rsv: u8 = (b0 >> 4) & 0b0111;
    let opcode_nibble: u8 = b0 & 0b0000_1111;
    let fin: bool = (b0 & 0b1000_0000) != 0;
    let has_mask: bool = (b1 & 0b1000_0000) != 0;
    let len7: u8 = b1 & 0b0111_1111;
    proof {
        assert(((b0 >> 4) & 0b0111) == (b0 / 16) % 8) by (bit_vector);
        assert((b0 & 0b0000_1111) == b0 % 16) by (bit_vector);
        assert(((b0 & 0b1000_0000) != 0) == (b0 >= 0x80)) by (bit_vector);
        assert(((b1 & 0b1000_0000) != 0) == (b1 >= 0x80)) by (bit_vector);
        assert((b1 & 0b0111_1111) == b1 % 128) by (bit_vector);
    }
    if rsv != 0 {
        return Err(FrameError::Protocol(ProtocolError::ReservedBits));
    }
    let opcode = match Opcode::from_u8(opcode_nibble) {
        None => {
            return Err(FrameError::Protocol(ProtocolError::UnknownOpcode));
        },
        Some(Opcode::ContinuationOp) => {
            return Err(FrameError::Protocol(ProtocolError::Fragmented));
        },
        Some(opcode) => opcode,
    };
    let width: usize = if len7 == 126 {
        2
    } else if len7 == 127 {
        8
    } else {
        0
    };
    if total - 2 < width {
        return Err(FrameError::Incomplete);
    }
    let payload_len: u64 = if width == 0 {
        len7 as u64
    } else {
        read_be(source, 2, width)
    };
    let limited = match opcode {
        Opcode::CloseOp | Opcode::PingOp => true,
        _ => false,
    };
    if limited && payload_len > 125 {
        return Err(FrameError::Protocol(ProtocolError::ControlTooLong));
    }
    if !has_mask {
        return Ok(FrameHeader { fin, opcode, mask_key: None, payload_len, header_len: 2 + width });
    }
    let key_at: usize = 2 + width;
    if total - key_at < 4 {
        return Err(FrameError::Incomplete);
    }
    let key: [u8; 4] = [source[key_at], source[key_at + 1], source[key_at + 2], source[key_at + 3]];
    assert(key@ =~= source@.subrange(key_at as int, key_at + 4));
    Ok(FrameHeader { fin, opcode, mask_key: Some(key), payload_len, header_len: key_at + 4 })
}

/// Reads the frame at the start of `source`, and says how many bytes of
/// `source` it took. The payload is returned unmasked.
pub fn read_frame(source: &[u8]) -> (result: Result<(Frame, usize), FrameError>)
    ensures
        match parse_frame(source@) {
            Ok((frame, used)) => result matches Ok((f, n)) && f@ == frame && n == used,
            Err(e) => result matches Err(x) && x == e,
        },
        result matches Ok((f, n)) ==> f@.acceptable() && 2 <= n <= source@.len(),
{
    proof {
        lemma_parsed_frame_acceptable(source@);
    }
    let header = match read_header(source) {
        Err(e) => {
            return Err(e);
        },
        Ok(header) => header,
    };
    let available: usize = source.len() - header.header_len;
    if header.payload_len > available as u64 {
        return Err(FrameError::Incomplete);
    }
    let end: usize = header.header_len + header.payload_len as usize;
    let mut payload = slice_to_vec(slice_subrange(source, header.header_len, end));
    let masked = match header.mask_key {
        Some(key) => {
            apply_mask(&mut payload, &key);
            true
        },
        None => false,
    };
    Ok((Frame { fin: header.fin, opcode: header.opcode, masked, payload }, end))
}

/// Appends the bytes of `frame` to `sink`, as a server sends it: final and
/// unmasked, whatever `frame.fin` and `frame.masked` say, with the
/// shortest length field that holds the payload's length.
pub fn write_frame(sink: &mut Vec<u8>, frame: &Frame)
    ensures
        final(sink)@ == old(sink)@ + encode_frame(frame.opcode, frame.payload@),
{
    write_frame_bytes(sink, frame.opcode, frame.payload.as_slice());
}

/// Appends to `sink` the bytes of a final, unmasked frame with the given
/// opcode and payload.
pub fn write_frame_bytes(sink: &mut Vec<u8>, opcode: Opcode, payload: &[u8])
    ensures
        final(sink)@ == old(sink)@ + encode_frame(opcode, payload@),
{
    let code: u8 = opcode.to_u8();
    assert((0b1000_0000u8 | code) == 0x80 + code) by (bit_vector)
        requires
            code < 16,
    ;
    sink.push(0b1000_0000 | code);
    let payload_length: usize = payload.len();
    if payload_length <= 125 {
        sink.push(payload_length as u8);
    } else if payload_length <= 65535 {
        sink.push(126);
        push_be(sink, payload_length as u64, 2);
    } else {
        sink.push(127);
        push_be(sink, payload_length as u64, 8);
    }
    assert(sink@ =~= old(sink)@ + seq![(0x80 + opcode.code()) as u8] + length_field(payload@.len()));
    sink.extend_from_slice(payload);
    assert(sink@ =~= old(sink)@ + encode_frame(opcode, payload@));
}

/// The length field takes 1, 3 or 9 bytes, and the form changes exactly
/// between 125 and 126 and between 65535 and 65536.
pub proof fn lemma_length_field_len(len: nat)
    ensures
        length_field(len).len() == if len <= 125 {
            1nat
        } else if len <= 65535 {
            3nat
        } else {
            9nat
        },
        length_field(len)[0] == if len <= 125 {
            len as u8
        } else if len <= 65535 {
            126u8
        } else {
            127u8
        },
{
    lemma_be_bytes_len(len, 2);
    lemma_be_bytes_len(len, 8);
}

/// Decoding what the encoder wrote gives the frame back, with its opcode
/// and its payload byte for byte, for every frame that a decoder accepts
/// and whatever bytes follow it; and the decoder takes exactly the bytes
/// that the encoder wrote.
pub proof fn lemma_decode_encode(frame: FrameView, rest: Seq<u8>)
    requires
        frame.acceptable(),
        frame.payload.len() <= u64::MAX,
    ensures
        parse_frame(encode_frame(frame.opcode, frame.payload) + rest) == Ok::<
            (FrameView, nat),
            FrameError,
        >((frame.as_sent(), encode_frame(frame.opcode, frame.payload).len())),
{
    let len = frame.payload.len();
    let encoded = encode_frame(frame.opcode, frame.payload);
    let bytes = encoded + rest;
    let code = frame.opcode.code();
    lemma_length_field_len(len);
    lemma_pow256_values();
    let width = extended_length_width(length_bits(bytes[1]));
    assert(bytes[0] == 0x80 + code);
    assert(reserved_bits(bytes[0]) == 0);
    assert(opcode_bits(bytes[0]) == code);
    assert(fin_bit(bytes[0]));
    assert(bytes[1] == length_field(len)[0]);
    assert(!mask_bit(bytes[1]));
    if len <= 125 {
        assert(width == 0);
    } else if len <= 65535 {
        assert(width == 2);
        lemma_be_bytes_len(len, 2);
        lemma_be_value_of_be_bytes(len, 2);
        assert(bytes.subrange(2, 4) =~= be_bytes(len, 2));
    } else {
        assert(width == 8);
        lemma_be_bytes_len(len, 8);
        lemma_be_value_of_be_bytes(len, 8);
        assert(bytes.subrange(2, 10) =~= be_bytes(len, 8));
    }
    let header = parse_header(bytes)->Ok_0;
    assert(parse_header(bytes) is Ok);
    assert(header.payload_len == len);
    assert(header.header_len == 2 + width);
    assert(encoded.len() == 2 + width + len);
    assert(bytes.subrange(2 + width, 2 + width + len) =~= frame.payload);
}

/// Decoding a frame that a client masked gives the payload as it was
/// before the masking, for every key and every frame that a decoder
/// accepts, whatever bytes follow it.
pub proof fn lemma_decode_masked(frame: FrameView, key: Seq<u8>, rest: Seq<u8>)
    requires
        frame.acceptable(),
        frame.payload.len() <= u64::MAX,
        key.len() == 4,
    ensures
        parse_frame(encode_masked_frame(frame.opcode, frame.payload, key) + rest) == Ok::<
            (FrameView, nat),
            FrameError,
        >(
            (
                FrameView { fin: true, opcode: frame.opcode, masked: true, payload: frame.payload },
                encode_masked_frame(frame.opcode, frame.payload, key).len(),
            ),
        ),
{
    let len = frame.payload.len();
    let encoded = encode_masked_frame(frame.opcode, frame.payload, key);
    let bytes = encoded + rest;
    let code = frame.opcode.code();
    lemma_length_field_len(len);
    lemma_pow256_values();
    let width = extended_length_width(length_bits(bytes[1]));
    assert(bytes[0] == 0x80 + code);
    assert(reserved_bits(bytes[0]) == 0);
    assert(opcode_bits(bytes[0]) == code);
    assert(fin_bit(bytes[0]));
    assert(bytes[1] == 0x80 + length_field(len)[0]);
    assert(mask_bit(bytes[1]));
    if len <= 125 {
        assert(width == 0);
    } else if len <= 65535 {
        assert(width == 2);
        lemma_be_bytes_len(len, 2);
        lemma_be_value_of_be_bytes(len, 2);
        assert(bytes.subrange(2, 4) =~= be_bytes(len, 2));
    } else {
        assert(width == 8);
        lemma_be_bytes_len(len, 8);
        lemma_be_value_of_be_bytes(len, 8);
        assert(bytes.subrange(2, 10) =~= be_bytes(len, 8));
    }
    let header = parse_header(bytes)->Ok_0;
    assert(parse_header(bytes) is Ok);
    assert(header.payload_len == len);
    assert(header.header_len == 2 + width + 4);
    assert(encoded.len() == 2 + width + 4 + len);
    assert(bytes.subrange(2 + width, 2 + width + 4) =~= key);
    assert(bytes.subrange(2 + width + 4, 2 + width + 4 + len) =~= masked(frame.payload, key));
    lemma_mask_involution(frame.payload, key);
}

/// A frame with any reserved bit set is rejected as a protocol error,
/// whatever its opcode, its length field and its payload are.
pub proof fn lemma_reserved_bits_rejected(bytes: Seq<u8>)
    requires
        bytes.len() >= 2,
        reserved_bits(bytes[0]) != 0,
    ensures
        parse_header(bytes) == Err::<HeaderView, FrameError>(
            FrameError::Protocol(ProtocolError::ReservedBits),
        ),
        parse_frame(bytes) == Err::<(FrameView, nat), FrameError>(
            FrameError::Protocol(ProtocolError::ReservedBits),
        ),
{
}

/// A Close or Ping frame that announces 126 bytes of payload or more is
/// rejected as a protocol error as soon as its length is known; one of at
/// most 125 bytes is not rejected for its length.
pub proof fn lemma_control_length_limit(bytes: Seq<u8>)
    requires
        bytes.len() >= 2,
        reserved_bits(bytes[0]) == 0,
        Opcode::from_code(opcode_bits(bytes[0])) == Some(Opcode::CloseOp) || Opcode::from_code(
            opcode_bits(bytes[0]),
        ) == Some(Opcode::PingOp),
        bytes.len() >= 2 + extended_length_width(length_bits(bytes[1])),
    ensures
        announced_length(bytes) >= 126 ==> parse_frame(bytes) == Err::<(FrameView, nat), FrameError>(
            FrameError::Protocol(ProtocolError::ControlTooLong),
        ),
        announced_length(bytes) <= 125 ==> parse_frame(bytes) != Err::<(FrameView, nat), FrameError>(
            FrameError::Protocol(ProtocolError::ControlTooLong),
        ),
        announced_length(bytes) <= 125 && bytes.len() >= 2 + extended_length_width(
            length_bits(bytes[1]),
        ) + 4 + announced_length(bytes) ==> parse_frame(bytes) is Ok,
{
}

/// A decoded frame is one that a decoder accepts, and it takes at least
/// the two bytes of the shortest header and at most the bytes at hand.
pub proof fn lemma_parsed_frame_acceptable(bytes: Seq<u8>)
    ensures
        parse_frame(bytes) matches Ok((frame, used)) ==> frame.acceptable() && 2 <= used
            <= bytes.len(),
{
    lemma_header_bounds(bytes);
    match parse_header(bytes) {
        Ok(header) => {
            let raw = bytes.subrange(
                header.header_len as int,
                (header.header_len + header.payload_len) as int,
            );
            if bytes.len() >= header.header_len + header.payload_len {
                assert(raw.len() == header.payload_len);
                assert(masked(raw, header.mask_key->Some_0).len() == raw.len());
            }
        },
        Err(_) => {},
    }
}

/// A decoded header takes 2 to 14 bytes, and its payload length fits in
/// 64 bits.
pub proof fn lemma_header_bounds(bytes: Seq<u8>)
    ensures
        parse_header(bytes) matches Ok(header) ==> 2 <= header.header_len <= 14
            && header.header_len <= bytes.len() && header.payload_len <= u64::MAX,
{
    if bytes.len() >= 2 {
        let width = extended_length_width(length_bits(bytes[1]));
        if bytes.len() >= 2 + width {
            lemma_be_value_bound(bytes.subrange(2, 2 + width));
            lemma_pow256_values();
        }
    }
}

} // verus!
