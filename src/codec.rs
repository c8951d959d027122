//! A streaming decoder of control frames over a growing byte buffer.

use crate::protocol::{
    decode_frame, decode_spec, encode_frame, fault_err, frame_bytes, lemma_frame_roundtrip,
    magic_at, ControlFrame, MessageType, NetworkError, ProtocolFault, HEADER_SIZE, MAGIC_0,
    MAGIC_1, MAX_MESSAGE_SIZE,
};
use crate::wire::{get_be32, read_be32};
use bytes::Buf;
use bytes::BytesMut;
use vstd::prelude::*;

verus! {

#[verifier::external_type_specification]
#[verifier::external_body]
pub struct ExBytesMut(BytesMut);

/// The bytes that a buffer holds.
pub uninterp spec fn buffered_bytes(b: BytesMut) -> Seq<u8>;

/// Relies on `BytesMut::with_capacity`: a new buffer holds no bytes.
#[verifier::external_body]
fn buffer_with_capacity(capacity: usize) -> (r: BytesMut)
    ensures
        buffered_bytes(r) == Seq::<u8>::empty(),
{
    BytesMut::with_capacity(capacity)
}

/// Relies on `BytesMut::extend_from_slice`: the bytes are appended.
#[verifier::external_body]
fn buffer_extend(b: &mut BytesMut, data: &[u8])
    requires
        buffered_bytes(*old(b)).len() + data@.len() <= isize::MAX,
    ensures
        buffered_bytes(*final(b)) == buffered_bytes(*old(b)) + data@,
{
    b.extend_from_slice(data)
}

/// Relies on `BytesMut::len`: the number of bytes held.
#[verifier::external_body]
fn buffer_len(b: &BytesMut) -> (r: usize)
    ensures
        r == buffered_bytes(*b).len(),
{
    b.len()
}

/// Relies on indexing the slice that `BytesMut` dereferences to.
#[verifier::external_body]
fn buffer_byte(b: &BytesMut, i: usize) -> (r: u8)
    requires
        i < buffered_bytes(*b).len(),
    ensures
        r == buffered_bytes(*b)[i as int],
{
    b[i]
}

/// Relies on `Buf::advance` for `BytesMut`: drops the first `n` bytes
/// (it panics when `n` exceeds the length).
#[verifier::external_body]
fn buffer_advance(b: &mut BytesMut, n: usize)
    requires
        n <= buffered_bytes(*old(b)).len(),
    ensures
        buffered_bytes(*final(b)) == buffered_bytes(*old(b)).subrange(
            n as int,
            buffered_bytes(*old(b)).len() as int,
        ),
{
    b.advance(n)
}

/// Relies on `BytesMut::clear`: the buffer is emptied.
#[verifier::external_body]
fn buffer_clear(b: &mut BytesMut)
    ensures
        buffered_bytes(*final(b)) == Seq::<u8>::empty(),
{
    b.clear()
}

/// Relies on `BytesMut::split_to`: the first `n` bytes are taken out (it
/// panics when `n` exceeds the length).
#[verifier::external_body]
fn buffer_split_to(b: &mut BytesMut, n: usize) -> (r: Vec<u8>)
    requires
        n <= buffered_bytes(*old(b)).len(),
    ensures
        r@ == buffered_bytes(*old(b)).subrange(0, n as int),
        buffered_bytes(*final(b)) == buffered_bytes(*old(b)).subrange(
            n as int,
            buffered_bytes(*old(b)).len() as int,
        ),
{
    b.split_to(n).to_vec()
}

/// The first position at or after `i` where the magic bytes start, or the
/// length of `s` when there is none.
pub open spec fn first_magic(s: Seq<u8>, i: int) -> int
    decreases s.len() - i,
{
    if i < 0 || i + 1 >= s.len() {
        s.len() as int
    } else if magic_at(s, i) {
        i
    } else {
        first_magic(s, i + 1)
    }
}

proof fn lemma_first_magic_bound(s: Seq<u8>, i: int)
    ensures
        first_magic(s, i) <= s.len(),
    decreases s.len() - i,
{
    if i < 0 || i + 1 >= s.len() {
    } else if magic_at(s, i) {
    } else {
        lemma_first_magic_bound(s, i + 1);
    }
}

/// One decoding step on the buffered bytes `s`: the bytes left afterwards
/// and the outcome. Too few bytes leave the buffer as it is; a bad magic
/// skips to the next magic (or empties the buffer); an oversize length skips
/// the header; a complete frame is taken out and checked.
pub open spec fn codec_step(s: Seq<u8>) -> (Seq<u8>, Result<Option<(MessageType, Seq<u8>)>, ProtocolFault>) {
    if s.len() < HEADER_SIZE {
        (s, Ok(None))
    } else if !magic_at(s, 0) {
        (s.subrange(first_magic(s, 1), s.len() as int), Err(ProtocolFault::BadMagic))
    } else if read_be32(s, 4) > MAX_MESSAGE_SIZE {
        (s.subrange(HEADER_SIZE as int, s.len() as int), Err(ProtocolFault::TooLarge))
    } else if s.len() < HEADER_SIZE + read_be32(s, 4) {
        (s, Ok(None))
    } else {
        let total = HEADER_SIZE + read_be32(s, 4);
        (
            s.subrange(total, s.len() as int),
            match decode_spec(s.subrange(0, total)) {
                Ok(x) => Ok(Some(x)),
                Err(e) => Err(e),
            },
        )
    }
}

/// Accumulates bytes from a stream and yields complete control frames.
pub struct MessageCodec {
    buffer: BytesMut,
}

impl View for MessageCodec {
    type V = Seq<u8>;

    closed spec fn view(&self) -> Seq<u8> {
        buffered_bytes(self.buffer)
    }
}

impl MessageCodec {
    /// A codec with an empty buffer.
    pub fn new() -> (r: Self)
        ensures
            r@ == Seq::<u8>::empty(),
    {
        MessageCodec { buffer: buffer_with_capacity(65536) }
    }

    /// Appends received bytes to the buffer.
    pub fn feed(&mut self, data: &[u8])
        requires
            old(self)@.len() + data@.len() <= isize::MAX,
        ensures
            final(self)@ == old(self)@ + data@,
    {
        buffer_extend(&mut self.buffer, data)
    }

    /// Number of buffered bytes.
    pub fn buffer_len(&self) -> (r: usize)
        ensures
            r == self@.len(),
    {
        buffer_len(&self.buffer)
    }

    /// Drops all buffered bytes.
    pub fn clear(&mut self)
        ensures
            final(self)@ == Seq::<u8>::empty(),
    {
        buffer_clear(&mut self.buffer)
    }

    /// Frames a payload; see `encode_frame`.
    pub fn encode(&self, t: MessageType, payload: &[u8]) -> (r: Result<Vec<u8>, NetworkError>)
        ensures
            payload@.len() > MAX_MESSAGE_SIZE ==> r == Err::<Vec<u8>, NetworkError>(
                NetworkError::ProtocolError(ProtocolFault::TooLarge),
            ),
            payload@.len() <= MAX_MESSAGE_SIZE ==> (r matches Ok(v) && v@ == frame_bytes(t, payload@)),
    {
        encode_frame(t, payload)
    }

    /// The first position at or after 1 where the magic bytes start.
    fn find_magic(&self) -> (r: usize)
        ensures
            r == first_magic(self@, 1),
    {
        let n = buffer_len(&self.buffer);
        let mut i: usize = 1;
        while i < n && n - i > 1
            invariant
                n == self@.len(),
                1 <= i,
                first_magic(self@, 1) == first_magic(self@, i as int),
            decreases n - i,
        {
            if buffer_byte(&self.buffer, i) == MAGIC_0 && buffer_byte(&self.buffer, i + 1) == MAGIC_1 {
                return i;
            }
            i = i + 1;
        }
        n
    }

    /// Takes one complete frame out of the buffer if there is one; see
    /// `codec_step` for what happens to the buffer on each outcome.
    pub fn decode(&mut self) -> (r: Result<Option<ControlFrame>, NetworkError>)
        ensures
            final(self)@ == codec_step(old(self)@).0,
            match codec_step(old(self)@).1 {
                Ok(None) => r matches Ok(None),
                Ok(Some((t, p))) => r matches Ok(Some(f)) && f.message_type == t && f.payload@ == p,
                Err(e) => r == Err::<Option<ControlFrame>, NetworkError>(fault_err(e)),
            },
    {
        let n = buffer_len(&self.buffer);
        if n < HEADER_SIZE {
            return Ok(None);
        }
        if buffer_byte(&self.buffer, 0) != MAGIC_0 || buffer_byte(&self.buffer, 1) != MAGIC_1 {
            let pos = self.find_magic();
            proof {
                lemma_first_magic_bound(self@, 1);
            }
            if pos < n {
                buffer_advance(&mut self.buffer, pos);
            } else {
                buffer_clear(&mut self.buffer);
                assert(self@ =~= codec_step(old(self)@).0);
            }
            return Err(NetworkError::ProtocolError(ProtocolFault::BadMagic));
        }
        let b4 = buffer_byte(&self.buffer, 4);
        let b5 = buffer_byte(&self.buffer, 5);
        let b6 = buffer_byte(&self.buffer, 6);
        let b7 = buffer_byte(&self.buffer, 7);
        let header = [b4, b5, b6, b7];
        let len = get_be32(&header, 0) as usize;
        assert(header@[0] == self@[4] && header@[1] == self@[5] && header@[2] == self@[6] && header@[3] == self@[7]);
        assert(len == read_be32(self@, 4));
        if len > MAX_MESSAGE_SIZE {
            buffer_advance(&mut self.buffer, HEADER_SIZE);
            return Err(NetworkError::ProtocolError(ProtocolFault::TooLarge));
        }
        if n - HEADER_SIZE < len {
            return Ok(None);
        }
        let data = buffer_split_to(&mut self.buffer, HEADER_SIZE + len);
        match decode_frame(data.as_slice()) {
            Ok(f) => Ok(Some(f)),
            Err(e) => Err(e),
        }
    }
}

/// Feeding the frame of a payload to an empty codec, in any number of
/// pieces, and decoding once gives the type and payload back and leaves the
/// buffer empty.
pub proof fn lemma_codec_roundtrip(t: MessageType, p: Seq<u8>, a: Seq<u8>, b: Seq<u8>, c: Seq<u8>)
    requires
        p.len() <= MAX_MESSAGE_SIZE,
        a + b + c == frame_bytes(t, p),
    ensures
        codec_step(Seq::<u8>::empty() + a + b + c) == (
            Seq::<u8>::empty(),
            Ok::<Option<(MessageType, Seq<u8>)>, ProtocolFault>(Some((t, p))),
        ),
{
    let s = Seq::<u8>::empty() + a + b + c;
    assert(s =~= frame_bytes(t, p));
    lemma_frame_roundtrip(t, p, Seq::empty());
    assert(s.subrange(0, s.len() as int) =~= s);
    assert(s.subrange(s.len() as int, s.len() as int) =~= Seq::<u8>::empty());
}

/// Decoding a frame followed by further bytes takes exactly that frame out.
pub proof fn lemma_codec_frame_then_rest(t: MessageType, p: Seq<u8>, rest: Seq<u8>)
    requires
        p.len() <= MAX_MESSAGE_SIZE,
    ensures
        codec_step(frame_bytes(t, p) + rest) == (
            rest,
            Ok::<Option<(MessageType, Seq<u8>)>, ProtocolFault>(Some((t, p))),
        ),
{
    let f = frame_bytes(t, p);
    let s = f + rest;
    lemma_frame_roundtrip(t, p, rest);
    lemma_frame_roundtrip(t, p, Seq::empty());
    assert(s.subrange(0, f.len() as int) =~= f);
    assert(s.subrange(f.len() as int, s.len() as int) =~= rest);
}

} // verus!
