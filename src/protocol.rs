//! Control-message frames: `MAGIC | VERSION | TYPE | LENGTH (u32 BE) | PAYLOAD`,
//! and a streaming codec that cuts frames out of a growing byte buffer.
//! The payload is an opaque serialised body; this module frames and checks
//! it.

use crate::wire::{be32, get_be32, lemma_be32_roundtrip, lemma_read_after, push_be32, read_be32};
use vstd::prelude::*;
use vstd::slice::slice_subrange;

verus! {

/// First magic byte ("L").
pub const MAGIC_0: u8 = 0x4C;

/// Second magic byte ("M").
pub const MAGIC_1: u8 = 0x4D;

/// Protocol version carried in every frame.
pub const VERSION: u8 = 1;

/// Largest payload accepted (16 MiB).
pub const MAX_MESSAGE_SIZE: usize = 16777216;

/// Bytes before the payload: magic (2), version (1), type (1), length (4).
pub const HEADER_SIZE: usize = 8;

/// Type tag of a control message, partitioned by category.
#[derive(Debug, Clone, Copy, PartialEq, Eq, Structural)]
pub enum MessageType {
    Handshake,
    HandshakeAck,
    Disconnect,
    Heartbeat,
    HeartbeatAck,
    ScreenOffer,
    ScreenRequest,
    ScreenStart,
    ScreenFrame,
    ScreenStop,
    ControlRequest,
    ControlGrant,
    ControlRevoke,
    InputEvent,
    ChatMessage,
    FileOffer,
    FileAccept,
    FileReject,
    FileChunk,
    FileComplete,
    FileCancel,
}

/// The wire tag of each message type.
pub open spec fn type_code(t: MessageType) -> u8 {
    match t {
        MessageType::Handshake => 0x00,
        MessageType::HandshakeAck => 0x01,
        MessageType::Disconnect => 0x02,
        MessageType::Heartbeat => 0x03,
        MessageType::HeartbeatAck => 0x04,
        MessageType::ScreenOffer => 0x10,
        MessageType::ScreenRequest => 0x11,
        MessageType::ScreenStart => 0x12,
        MessageType::ScreenFrame => 0x13,
        MessageType::ScreenStop => 0x14,
        MessageType::ControlRequest => 0x20,
        MessageType::ControlGrant => 0x21,
        MessageType::ControlRevoke => 0x22,
        MessageType::InputEvent => 0x23,
        MessageType::ChatMessage => 0x30,
        MessageType::FileOffer => 0x40,
        MessageType::FileAccept => 0x41,
        MessageType::FileReject => 0x42,
        MessageType::FileChunk => 0x43,
        MessageType::FileComplete => 0x44,
        MessageType::FileCancel => 0x45,
    }
}

/// The message type with wire tag `c`, if any.
pub open spec fn type_of_code(c: u8) -> Option<MessageType> {
    if c == 0x00 {
        Some(MessageType::Handshake)
    } else if c == 0x01 {
        Some(MessageType::HandshakeAck)
    } else if c == 0x02 {
        Some(MessageType::Disconnect)
    } else if c == 0x03 {
        Some(MessageType::Heartbeat)
    } else if c == 0x04 {
        Some(MessageType::HeartbeatAck)
    } else if c == 0x10 {
        Some(MessageType::ScreenOffer)
    } else if c == 0x11 {
        Some(MessageType::ScreenRequest)
    } else if c == 0x12 {
        Some(MessageType::ScreenStart)
    } else if c == 0x13 {
        Some(MessageType::ScreenFrame)
    } else if c == 0x14 {
        Some(MessageType::ScreenStop)
    } else if c == 0x20 {
        Some(MessageType::ControlRequest)
    } else if c == 0x21 {
        Some(MessageType::ControlGrant)
    } else if c == 0x22 {
        Some(MessageType::ControlRevoke)
    } else if c == 0x23 {
        Some(MessageType::InputEvent)
    } else if c == 0x30 {
        Some(MessageType::ChatMessage)
    } else if c == 0x40 {
        Some(MessageType::FileOffer)
    } else if c == 0x41 {
        Some(MessageType::FileAccept)
    } else if c == 0x42 {
        Some(MessageType::FileReject)
    } else if c == 0x43 {
        Some(MessageType::FileChunk)
    } else if c == 0x44 {
        Some(MessageType::FileComplete)
    } else if c == 0x45 {
        Some(MessageType::FileCancel)
    } else {
        None
    }
}

impl MessageType {
    /// The wire tag of this type.
    pub fn code(&self) -> (r: u8)
        ensures
            r == type_code(*self),
            type_of_code(r) == Some(*self),
    {
        match self {
            MessageType::Handshake => 0x00,
            MessageType::HandshakeAck => 0x01,
            MessageType::Disconnect => 0x02,
            MessageType::Heartbeat => 0x03,
            MessageType::HeartbeatAck => 0x04,
            MessageType::ScreenOffer => 0x10,
            MessageType::ScreenRequest => 0x11,
            MessageType::ScreenStart => 0x12,
            MessageType::ScreenFrame => 0x13,
            MessageType::ScreenStop => 0x14,
            MessageType::ControlRequest => 0x20,
            MessageType::ControlGrant => 0x21,
            MessageType::ControlRevoke => 0x22,
            MessageType::InputEvent => 0x23,
            MessageType::ChatMessage => 0x30,
            MessageType::FileOffer => 0x40,
            MessageType::FileAccept => 0x41,
            MessageType::FileReject => 0x42,
            MessageType::FileChunk => 0x43,
            MessageType::FileComplete => 0x44,
            MessageType::FileCancel => 0x45,
        }
    }

    /// The type with wire tag `c`; an unknown tag is a protocol error.
    pub fn from_code(c: u8) -> (r: Result<MessageType, NetworkError>)
        ensures
            type_of_code(c) matches Some(t) ==> r == Ok::<MessageType, NetworkError>(t),
            type_of_code(c) is None ==> r == Err::<MessageType, NetworkError>(
                NetworkError::ProtocolError(ProtocolFault::UnknownType(c)),
            ),
    {
        if c == 0x00 {
            Ok(MessageType::Handshake)
        } else if c == 0x01 {
            Ok(MessageType::HandshakeAck)
        } else if c == 0x02 {
            Ok(MessageType::Disconnect)
        } else if c == 0x03 {
            Ok(MessageType::Heartbeat)
        } else if c == 0x04 {
            Ok(MessageType::HeartbeatAck)
        } else if c == 0x10 {
            Ok(MessageType::ScreenOffer)
        } else if c == 0x11 {
            Ok(MessageType::ScreenRequest)
        } else if c == 0x12 {
            Ok(MessageType::ScreenStart)
        } else if c == 0x13 {
            Ok(MessageType::ScreenFrame)
        } else if c == 0x14 {
            Ok(MessageType::ScreenStop)
        } else if c == 0x20 {
            Ok(MessageType::ControlRequest)
        } else if c == 0x21 {
            Ok(MessageType::ControlGrant)
        } else if c == 0x22 {
            Ok(MessageType::ControlRevoke)
        } else if c == 0x23 {
            Ok(MessageType::InputEvent)
        } else if c == 0x30 {
            Ok(MessageType::ChatMessage)
        } else if c == 0x40 {
            Ok(MessageType::FileOffer)
        } else if c == 0x41 {
            Ok(MessageType::FileAccept)
        } else if c == 0x42 {
            Ok(MessageType::FileReject)
        } else if c == 0x43 {
            Ok(MessageType::FileChunk)
        } else if c == 0x44 {
            Ok(MessageType::FileComplete)
        } else if c == 0x45 {
            Ok(MessageType::FileCancel)
        } else {
            Err(NetworkError::ProtocolError(ProtocolFault::UnknownType(c)))
        }
    }
}

/// What is wrong with a control frame.
#[derive(Debug, Clone, Copy, PartialEq, Eq, Structural)]
pub enum ProtocolFault {
    /// Fewer bytes than a header.
    TooShort,
    /// The frame does not start with the magic bytes.
    BadMagic,
    /// The version byte is not ours.
    UnsupportedVersion(u8),
    /// The type byte is not a known message type.
    UnknownType(u8),
    /// The payload exceeds the maximum message size.
    TooLarge,
    /// Fewer payload bytes than the header announces.
    Incomplete,
    /// The payload is not a valid serialised body.
    Malformed,
}

/// Errors of the peer transport and its protocol.
#[derive(Debug, Clone, PartialEq, Eq)]
pub enum NetworkError {
    ConnectionFailed(String),
    DiscoveryError(String),
    ProtocolError(ProtocolFault),
    IoError(String),
}

/// A control frame: the message type and its serialised payload.
#[derive(Debug)]
pub struct ControlFrame {
    pub message_type: MessageType,
    pub payload: Vec<u8>,
}

/// The bytes of a frame with type `t` and payload `p`.
pub open spec fn frame_bytes(t: MessageType, p: Seq<u8>) -> Seq<u8> {
    seq![MAGIC_0, MAGIC_1, VERSION, type_code(t)] + be32(p.len() as u32) + p
}

/// Whether `s` holds the magic bytes at `i`.
pub open spec fn magic_at(s: Seq<u8>, i: int) -> bool {
    0 <= i && i + 1 < s.len() && s[i] == MAGIC_0 && s[i + 1] == MAGIC_1
}

/// The result of decoding one frame from the start of `s`.
pub open spec fn decode_spec(s: Seq<u8>) -> Result<(MessageType, Seq<u8>), ProtocolFault> {
    if s.len() < HEADER_SIZE {
        Err(ProtocolFault::TooShort)
    } else if !magic_at(s, 0) {
        Err(ProtocolFault::BadMagic)
    } else if s[2] != VERSION {
        Err(ProtocolFault::UnsupportedVersion(s[2]))
    } else if type_of_code(s[3]) is None {
        Err(ProtocolFault::UnknownType(s[3]))
    } else if read_be32(s, 4) > MAX_MESSAGE_SIZE {
        Err(ProtocolFault::TooLarge)
    } else if s.len() < HEADER_SIZE + read_be32(s, 4) {
        Err(ProtocolFault::Incomplete)
    } else {
        Ok((type_of_code(s[3])->0, s.subrange(8, 8 + read_be32(s, 4))))
    }
}

/// Frames a payload as a control message of type `t`.
pub fn encode_frame(t: MessageType, payload: &[u8]) -> (r: Result<Vec<u8>, NetworkError>)
    ensures
        payload@.len() > MAX_MESSAGE_SIZE ==> r == Err::<Vec<u8>, NetworkError>(
            NetworkError::ProtocolError(ProtocolFault::TooLarge),
        ),
        payload@.len() <= MAX_MESSAGE_SIZE ==> (r matches Ok(v) && v@ == frame_bytes(t, payload@)),
{
    if payload.len() > MAX_MESSAGE_SIZE {
        return Err(NetworkError::ProtocolError(ProtocolFault::TooLarge));
    }
    let mut buf: Vec<u8> = Vec::with_capacity(HEADER_SIZE + payload.len());
    buf.push(MAGIC_0);
    buf.push(MAGIC_1);
    buf.push(VERSION);
    buf.push(t.code());
    push_be32(&mut buf, payload.len() as u32);
    buf.extend_from_slice(payload);
    assert(buf@ =~= frame_bytes(t, payload@));
    Ok(buf)
}

/// The error value of a fault.
pub open spec fn fault_err(f: ProtocolFault) -> NetworkError {
    NetworkError::ProtocolError(f)
}

/// Decodes one control frame from the start of `data`.
pub fn decode_frame(data: &[u8]) -> (r: Result<ControlFrame, NetworkError>)
    ensures
        match decode_spec(data@) {
            Ok((t, p)) => r matches Ok(f) && f.message_type == t && f.payload@ == p,
            Err(e) => r == Err::<ControlFrame, NetworkError>(fault_err(e)),
        },
{
    let n = data.len();
    if n < HEADER_SIZE {
        return Err(NetworkError::ProtocolError(ProtocolFault::TooShort));
    }
    if data[0] != MAGIC_0 || data[1] != MAGIC_1 {
        return Err(NetworkError::ProtocolError(ProtocolFault::BadMagic));
    }
    if data[2] != VERSION {
        return Err(NetworkError::ProtocolError(ProtocolFault::UnsupportedVersion(data[2])));
    }
    let t = match MessageType::from_code(data[3]) {
        Ok(t) => t,
        Err(e) => return Err(e),
    };
    let len = get_be32(data, 4) as usize;
    if len > MAX_MESSAGE_SIZE {
        return Err(NetworkError::ProtocolError(ProtocolFault::TooLarge));
    }
    if n - HEADER_SIZE < len {
        return Err(NetworkError::ProtocolError(ProtocolFault::Incomplete));
    }
    let payload = vstd::slice::slice_to_vec(slice_subrange(data, HEADER_SIZE, HEADER_SIZE + len));
    Ok(ControlFrame { message_type: t, payload })
}

/// Decoding the frame of any payload within the size limit gives the type
/// and payload back.
pub proof fn lemma_frame_roundtrip(t: MessageType, p: Seq<u8>, rest: Seq<u8>)
    requires
        p.len() <= MAX_MESSAGE_SIZE,
    ensures
        decode_spec(frame_bytes(t, p) + rest) == Ok::<(MessageType, Seq<u8>), ProtocolFault>((t, p)),
        decode_spec(frame_bytes(t, p)) == Ok::<(MessageType, Seq<u8>), ProtocolFault>((t, p)),
{
    let n = p.len() as u32;
    lemma_be32_roundtrip(n);
    let head = seq![MAGIC_0, MAGIC_1, VERSION, type_code(t)];
    let s = frame_bytes(t, p) + rest;
    lemma_read_after(head, be32(n) + be32(0), Seq::empty());
    assert(read_be32(be32(n) + be32(0), 0) == read_be32(be32(n), 0));
    assert(read_be32(s, 4) == read_be32(head + (be32(n) + be32(0)) + Seq::empty(), 4));
    assert(s.subrange(8, 8 + n as int) =~= p);
    let s2 = frame_bytes(t, p);
    assert(read_be32(s2, 4) == read_be32(head + (be32(n) + be32(0)) + Seq::empty(), 4));
    assert(s2.subrange(8, 8 + n as int) =~= p);
}

} // verus!
