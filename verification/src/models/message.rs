//! The wire message codec: opcodes and length-prefixed binary framing.
//!
//! A frame is, in order: a 4-byte little-endian opcode ordinal, a 4-byte
//! little-endian payload byte length, and exactly that many bytes of UTF-8
//! payload text, with no terminator.

use vstd::prelude::*;

use vstd::slice::{slice_subrange, slice_to_vec};
use vstd::utf8::{decode_utf8, encode_utf8, encode_utf8_decode_utf8, encode_utf8_valid_utf8,
    valid_utf8};

use crate::DiscordError;

verus! {

/// Codes for payload types.
#[derive(Debug, Clone, Copy, PartialEq, Eq, Structural)]
pub enum OpCode {
    /// Handshake payload
    Handshake,
    /// Frame payload
    Frame,
    /// Close payload
    Close,
    /// Ping payload
    Ping,
    /// Pong payload
    Pong,
}

impl OpCode {
    /// The ordinal that represents this opcode on the wire.
    pub open spec fn ordinal(self) -> u32 {
        match self {
            OpCode::Handshake => 0,
            OpCode::Frame => 1,
            OpCode::Close => 2,
            OpCode::Ping => 3,
            OpCode::Pong => 4,
        }
    }

    /// The opcode a wire ordinal stands for, if any: only 0 through 4 are valid.
    pub open spec fn spec_from_u32(value: u32) -> Option<OpCode> {
        if value == 0 {
            Some(OpCode::Handshake)
        } else if value == 1 {
            Some(OpCode::Frame)
        } else if value == 2 {
            Some(OpCode::Close)
        } else if value == 3 {
            Some(OpCode::Ping)
        } else if value == 4 {
            Some(OpCode::Pong)
        } else {
            None
        }
    }

    /// Writes this opcode as its wire ordinal.
    pub fn as_u32(self) -> (r: u32)
        ensures
            r == self.ordinal(),
    {
        match self {
            OpCode::Handshake => 0,
            OpCode::Frame => 1,
            OpCode::Close => 2,
            OpCode::Ping => 3,
            OpCode::Pong => 4,
        }
    }

    /// Reads an opcode back from its wire ordinal; ordinals 5 and above are rejected.
    pub fn from_u32(value: u32) -> (r: Option<OpCode>)
        ensures
            r == OpCode::spec_from_u32(value),
    {
        if value == 0 {
            Some(OpCode::Handshake)
        } else if value == 1 {
            Some(OpCode::Frame)
        } else if value == 2 {
            Some(OpCode::Close)
        } else if value == 3 {
            Some(OpCode::Ping)
        } else if value == 4 {
            Some(OpCode::Pong)
        } else {
            None
        }
    }

    /// Every opcode's ordinal decodes back to that opcode.
    pub proof fn lemma_ordinal_round_trip(self)
        ensures
            OpCode::spec_from_u32(self.ordinal()) == Some(self),
    {
    }
}

/// The little-endian 4-byte representation of a 32-bit integer.
pub open spec fn u32_le_bytes(v: u32) -> Seq<u8> {
    seq![
        (v % 256) as u8,
        ((v / 256) % 256) as u8,
        ((v / 65536) % 256) as u8,
        ((v / 16777216) % 256) as u8,
    ]
}

/// The 32-bit integer read from 4 little-endian bytes.
pub open spec fn le_bytes_to_u32(b: Seq<u8>) -> u32
    recommends
        b.len() == 4,
{
    (b[0] + b[1] * 256 + b[2] * 65536 + b[3] * 16777216) as u32
}

/// Reading the little-endian bytes of an integer gives the integer back.
pub proof fn lemma_u32_le_round_trip(v: u32)
    ensures
        le_bytes_to_u32(u32_le_bytes(v)) == v,
{
    assert(v % 256 + ((v / 256) % 256) * 256 + ((v / 65536) % 256) * 65536 + ((v / 16777216) % 256)
        * 16777216 == v) by (nonlinear_arith);
}

/// Appends the 4 little-endian bytes of `v`.
fn write_u32_le(bytes: &mut Vec<u8>, v: u32)
    ensures
        final(bytes)@ == old(bytes)@ + u32_le_bytes(v),
{
    bytes.push((v % 256) as u8);
    bytes.push((v / 256 % 256) as u8);
    bytes.push((v / 65536 % 256) as u8);
    bytes.push((v / 16777216 % 256) as u8);
    proof {
        assert(bytes@ =~= old(bytes)@ + u32_le_bytes(v));
    }
}

/// Reads the 4 little-endian bytes at `offset` as a 32-bit integer.
fn read_u32_le(bytes: &[u8], offset: usize) -> (r: u32)
    requires
        offset + 4 <= bytes@.len(),
    ensures
        r == le_bytes_to_u32(bytes@.subrange(offset as int, offset as int + 4)),
{
    let b0 = bytes[offset] as u32;
    let b1 = bytes[offset + 1] as u32;
    let b2 = bytes[offset + 2] as u32;
    let b3 = bytes[offset + 3] as u32;
    let r = b0 + b1 * 256 + b2 * 65536 + b3 * 16777216;
    proof {
        let s = bytes@.subrange(offset as int, offset as int + 4);
        assert(s[0] == bytes@[offset as int]);
        assert(s[1] == bytes@[offset as int + 1]);
        assert(s[2] == bytes@[offset as int + 2]);
        assert(s[3] == bytes@[offset as int + 3]);
    }
    r
}

/// Relies on String::from_utf8: it succeeds exactly on valid UTF-8 input and
/// returns the text those bytes spell.
#[verifier::external_body]
fn utf8_to_string(bytes: Vec<u8>) -> (r: Option<String>)
    ensures
        match r {
            Some(s) => valid_utf8(bytes@) && s@ == decode_utf8(bytes@),
            None => !valid_utf8(bytes@),
        },
{
    String::from_utf8(bytes).ok()
}

/// serde_json's error type, carried through opaquely and mapped to
/// [`DiscordError::Serialization`] by the library.
#[verifier::external_type_specification]
#[verifier::external_body]
pub struct ExSerdeJsonError(serde_json::Error);

/// Relies on serde_json::to_string; nothing is assumed of its result, which
/// depends on the serialized type's own behaviour.
pub assume_specification<T>[ serde_json::to_string::<T> ](value: &T) -> Result<
    String,
    serde_json::Error,
>
    where T: ?Sized + serde::Serialize
;

/// A wire message: its kind and its payload text.
#[derive(Debug)]
pub struct Message {
    /// The payload type for this `Message`
    pub opcode: OpCode,
    /// The actual payload
    pub payload: String,
}

impl Clone for Message {
    fn clone(&self) -> (res: Self)
        ensures
            res.opcode == self.opcode,
            res.payload@ == self.payload@,
    {
        Message { opcode: self.opcode, payload: self.payload.clone() }
    }
}

impl PartialEq for Message {
    fn eq(&self, other: &Message) -> (r: bool) {
        self.opcode == other.opcode && self.payload == other.payload
    }
}

impl vstd::std_specs::cmp::PartialEqSpecImpl for Message {
    open spec fn obeys_eq_spec() -> bool {
        true
    }

    open spec fn eq_spec(&self, other: &Message) -> bool {
        self.opcode == other.opcode && self.payload@ == other.payload@
    }
}

/// The raw opcode field of a frame.
pub open spec fn frame_opcode_raw(b: Seq<u8>) -> u32 {
    le_bytes_to_u32(b.subrange(0, 4))
}

/// The declared payload byte length of a frame.
pub open spec fn frame_len(b: Seq<u8>) -> int {
    le_bytes_to_u32(b.subrange(4, 8)) as int
}

/// The declared payload bytes of a frame.
pub open spec fn frame_payload(b: Seq<u8>) -> Seq<u8> {
    b.subrange(8, 8 + frame_len(b))
}

/// When decoding succeeds: a full header, a valid opcode ordinal, enough
/// bytes for the declared length, and payload bytes that are valid text.
pub open spec fn decode_ok(b: Seq<u8>) -> bool {
    &&& b.len() >= 8
    &&& OpCode::spec_from_u32(frame_opcode_raw(b)) is Some
    &&& frame_len(b) <= b.len() - 8
    &&& valid_utf8(frame_payload(b))
}

/// The error decoding reports when it fails.
pub open spec fn spec_decode_err(b: Seq<u8>) -> DiscordError {
    if b.len() < 8 {
        DiscordError::Truncated
    } else if OpCode::spec_from_u32(frame_opcode_raw(b)) is None {
        DiscordError::Conversion
    } else if frame_len(b) > b.len() - 8 {
        DiscordError::Truncated
    } else {
        DiscordError::InvalidText
    }
}

impl Message {
    /// The UTF-8 bytes of the payload.
    pub open spec fn spec_payload_bytes(self) -> Seq<u8> {
        encode_utf8(self.payload@)
    }

    /// Whether the payload's byte length fits the 32-bit length field.
    /// A message that breaks this bound is a caller-side bug and has no
    /// encoding; [`Message::encode`] refuses such a value up front.
    pub open spec fn spec_payload_fits(self) -> bool {
        self.spec_payload_bytes().len() <= u32::MAX
    }

    /// The exact wire bytes of this message: opcode ordinal, payload byte
    /// length, payload bytes, each integer in 4 little-endian bytes.
    pub open spec fn spec_encoded(self) -> Seq<u8> {
        u32_le_bytes(self.opcode.ordinal()) + u32_le_bytes(
            self.spec_payload_bytes().len() as u32,
        ) + self.spec_payload_bytes()
    }

    /// Builds the message value for an already-serialized payload text.
    pub fn from_payload(opcode: OpCode, payload: String) -> (m: Message)
        ensures
            m.opcode == opcode,
            m.payload@ == payload@,
    {
        Message { opcode, payload }
    }

    /// Creates a message by serializing `payload` to its canonical text form;
    /// fails exactly when that serialization fails.
    pub fn new<T: serde::Serialize>(opcode: OpCode, payload: T) -> (r: Result<
        Message,
        DiscordError,
    >)
        ensures
            r matches Ok(m) ==> m.opcode == opcode,
            r matches Err(e) ==> e == DiscordError::Serialization,
    {
        match serde_json::to_string(&payload) {
            Ok(text) => Ok(Message::from_payload(opcode, text)),
            Err(_) => Err(DiscordError::Serialization),
        }
    }

    /// Whether this message can be framed: its payload byte length is
    /// representable in the 32-bit length field.
    pub fn payload_fits(&self) -> (r: bool)
        ensures
            r == self.spec_payload_fits(),
    {
        let pb: &[u8] = self.payload.as_str().as_bytes();
        pb.len() <= u32::MAX as usize
    }

    /// Encodes this message into its exact wire bytes.
    #[verifier::loop_isolation(false)]
    pub fn encode(&self) -> (r: Result<Vec<u8>, DiscordError>)
        requires
            self.spec_payload_fits(),
        ensures
            r matches Ok(bytes) && bytes@ == self.spec_encoded(),
    {
        let mut bytes: Vec<u8> = Vec::new();
        write_u32_le(&mut bytes, self.opcode.as_u32());
        let pb: &[u8] = self.payload.as_str().as_bytes();
        let n = pb.len();
        write_u32_le(&mut bytes, n as u32);
        let mut i: usize = 0;
        while i < n
            invariant
                i <= n,
                bytes@ == u32_le_bytes(self.opcode.ordinal()) + u32_le_bytes(n as u32)
                    + pb@.subrange(0, i as int),
            decreases n - i,
        {
            bytes.push(pb[i]);
            proof {
                assert(bytes@ =~= u32_le_bytes(self.opcode.ordinal()) + u32_le_bytes(n as u32)
                    + pb@.subrange(0, i as int + 1));
            }
            i = i + 1;
        }
        proof {
            assert(pb@.subrange(0, n as int) =~= pb@);
        }
        Ok(bytes)
    }

    /// Decodes one complete frame: reads the opcode ordinal, the declared
    /// length, and exactly that many payload bytes as text. Succeeds if and
    /// only if the header is complete, the ordinal names an opcode, enough
    /// bytes are present and the payload bytes are valid text; each failure
    /// reports the error of the first check that went wrong.
    pub fn decode(bytes: &[u8]) -> (r: Result<Message, DiscordError>)
        ensures
            r is Ok <==> decode_ok(bytes@),
            r matches Ok(m) ==> Some(m.opcode) == OpCode::spec_from_u32(frame_opcode_raw(bytes@))
                && m.payload@ == decode_utf8(frame_payload(bytes@)),
            r matches Err(e) ==> e == spec_decode_err(bytes@),
    {
        if bytes.len() < 8 {
            return Err(DiscordError::Truncated);
        }
        let raw = read_u32_le(bytes, 0);
        let opcode = match OpCode::from_u32(raw) {
            Some(op) => op,
            None => {
                return Err(DiscordError::Conversion);
            },
        };
        let declared = read_u32_le(bytes, 4) as usize;
        if bytes.len() - 8 < declared {
            return Err(DiscordError::Truncated);
        }
        let payload_slice = slice_subrange(bytes, 8, 8 + declared);
        let payload_bytes = slice_to_vec(payload_slice);
        proof {
            assert(payload_bytes@ =~= frame_payload(bytes@));
        }
        match utf8_to_string(payload_bytes) {
            Some(payload) => Ok(Message { opcode, payload }),
            None => Err(DiscordError::InvalidText),
        }
    }
}

/// Round-trip law: a message whose payload fits the 32-bit length field
/// decodes from its own encoding, back to the same opcode and payload.
/// Together with the contract of [`Message::decode`], this pins
/// `decode(encode(m))` to a success carrying a message equal to `m`.
pub proof fn lemma_round_trip(m: Message)
    requires
        m.spec_payload_fits(),
    ensures
        decode_ok(m.spec_encoded()),
        OpCode::spec_from_u32(frame_opcode_raw(m.spec_encoded())) == Some(m.opcode),
        decode_utf8(frame_payload(m.spec_encoded())) == m.payload@,
{
    let b = m.spec_encoded();
    let pb = m.spec_payload_bytes();
    let len32 = pb.len() as u32;
    assert(b.subrange(0, 4) =~= u32_le_bytes(m.opcode.ordinal()));
    assert(b.subrange(4, 8) =~= u32_le_bytes(len32));
    lemma_u32_le_round_trip(m.opcode.ordinal());
    lemma_u32_le_round_trip(len32);
    m.opcode.lemma_ordinal_round_trip();
    assert(frame_len(b) == pb.len());
    assert(frame_payload(b) =~= pb);
    encode_utf8_valid_utf8(m.payload@);
    encode_utf8_decode_utf8(m.payload@);
}

/// The wire mapping is injective: two messages with the same encoding carry
/// the same opcode and the same payload.
pub proof fn lemma_encode_injective(m1: Message, m2: Message)
    requires
        m1.spec_payload_fits(),
        m2.spec_payload_fits(),
        m1.spec_encoded() == m2.spec_encoded(),
    ensures
        m1.opcode == m2.opcode,
        m1.payload@ == m2.payload@,
{
    lemma_round_trip(m1);
    lemma_round_trip(m2);
}

} // verus!
