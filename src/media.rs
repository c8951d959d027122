//! The media-stream protocol: one-byte tagged messages carried as framed
//! payloads on a stream from sharer to viewer (and resolution requests back).

use crate::wire::{
    be32, be64, get_be32, get_be64, lemma_be32_roundtrip, lemma_be64_roundtrip,
    lemma_read_after, push_be32, push_be64, read_be32, read_be64,
};
use vstd::prelude::*;
use vstd::slice::{slice_subrange, slice_to_vec};

verus! {

/// Tag of a stream-start message: `u32` width, `u32` height.
pub const MSG_TYPE_START: u8 = 0x01;

/// Tag of a frame message: `u64` timestamp, `u32` length, access unit.
pub const MSG_TYPE_FRAME: u8 = 0x02;

/// Tag of a stream-stop message (no body).
pub const MSG_TYPE_STOP: u8 = 0x03;

/// Tag of a resolution request (viewer to sharer): `u32` width, height and
/// bitrate.
pub const MSG_TYPE_RESOLUTION_REQUEST: u8 = 0x04;

/// A media-stream message.
pub enum MediaMessage {
    Start { width: u32, height: u32 },
    Frame { timestamp: u64, payload: Vec<u8> },
    Stop,
    ResolutionRequest { target_width: u32, target_height: u32, bitrate: u32 },
}

/// A media-stream message with its payload as a sequence.
pub enum MediaView {
    Start { width: u32, height: u32 },
    Frame { timestamp: u64, payload: Seq<u8> },
    Stop,
    ResolutionRequest { target_width: u32, target_height: u32, bitrate: u32 },
}

impl View for MediaMessage {
    type V = MediaView;

    open spec fn view(&self) -> MediaView {
        match self {
            MediaMessage::Start { width, height } => MediaView::Start { width: *width, height: *height },
            MediaMessage::Frame { timestamp, payload } => MediaView::Frame {
                timestamp: *timestamp,
                payload: payload@,
            },
            MediaMessage::Stop => MediaView::Stop,
            MediaMessage::ResolutionRequest { target_width, target_height, bitrate } =>
                MediaView::ResolutionRequest {
                target_width: *target_width,
                target_height: *target_height,
                bitrate: *bitrate,
            },
        }
    }
}

/// The view of an optional message.
pub open spec fn opt_media_view(r: Option<MediaMessage>) -> Option<MediaView> {
    match r {
        Some(m) => Some(m@),
        None => None,
    }
}

/// Whether a message can be put on the wire: a frame's access unit length
/// must fit in its `u32` length field.
pub open spec fn encodable(m: MediaView) -> bool {
    m matches MediaView::Frame { payload, .. } ==> payload.len() <= u32::MAX
}

/// The bytes of a media-stream message.
pub open spec fn media_bytes(m: MediaView) -> Seq<u8> {
    match m {
        MediaView::Start { width, height } => seq![MSG_TYPE_START] + be32(width) + be32(height),
        MediaView::Frame { timestamp, payload } => seq![MSG_TYPE_FRAME] + be64(timestamp) + be32(
            payload.len() as u32,
        ) + payload,
        MediaView::Stop => seq![MSG_TYPE_STOP],
        MediaView::ResolutionRequest { target_width, target_height, bitrate } => seq![
            MSG_TYPE_RESOLUTION_REQUEST,
        ] + be32(target_width) + be32(target_height) + be32(bitrate),
    }
}

/// The message that the bytes `s` hold, if any. Trailing bytes after a
/// complete body are ignored.
pub open spec fn parse_media(s: Seq<u8>) -> Option<MediaView> {
    if s.len() == 0 {
        None
    } else if s[0] == MSG_TYPE_START {
        if s.len() >= 9 {
            Some(MediaView::Start { width: read_be32(s, 1), height: read_be32(s, 5) })
        } else {
            None
        }
    } else if s[0] == MSG_TYPE_FRAME {
        if s.len() >= 13 && s.len() >= 13 + read_be32(s, 9) {
            Some(
                MediaView::Frame {
                    timestamp: read_be64(s, 1),
                    payload: s.subrange(13, 13 + read_be32(s, 9)),
                },
            )
        } else {
            None
        }
    } else if s[0] == MSG_TYPE_STOP {
        Some(MediaView::Stop)
    } else if s[0] == MSG_TYPE_RESOLUTION_REQUEST {
        if s.len() >= 13 {
            Some(
                MediaView::ResolutionRequest {
                    target_width: read_be32(s, 1),
                    target_height: read_be32(s, 5),
                    bitrate: read_be32(s, 9),
                },
            )
        } else {
            None
        }
    } else {
        None
    }
}

/// Whether the first byte of `s` is a media-stream tag.
pub open spec fn is_media_tag(s: Seq<u8>) -> bool {
    s.len() > 0 && MSG_TYPE_START <= s[0] <= MSG_TYPE_RESOLUTION_REQUEST
}

/// Parsing the bytes of any encodable message gives that message back.
pub proof fn lemma_media_roundtrip(m: MediaView)
    requires
        encodable(m),
    ensures
        parse_media(media_bytes(m)) == Some(m),
        is_media_tag(media_bytes(m)),
{
    let s = media_bytes(m);
    match m {
        MediaView::Start { width, height } => {
            lemma_be32_roundtrip(width);
            lemma_be32_roundtrip(height);
            lemma_read_after(seq![MSG_TYPE_START], be32(width) + be32(height), Seq::empty());
            lemma_read_after(seq![MSG_TYPE_START] + be32(width), be32(height) + be32(0), Seq::empty());
            assert(s =~= seq![MSG_TYPE_START] + (be32(width) + be32(height)) + Seq::empty());
            assert(read_be32(s, 5) == read_be32(be32(height) + be32(0), 0));
            assert(read_be32(be32(height) + be32(0), 0) == read_be32(be32(height), 0));
            assert(read_be32(be32(width) + be32(height), 0) == read_be32(be32(width), 0));
        },
        MediaView::Frame { timestamp, payload } => {
            let n = payload.len() as u32;
            lemma_be64_roundtrip(timestamp);
            lemma_be32_roundtrip(n);
            let head = seq![MSG_TYPE_FRAME];
            lemma_read_after(head, be64(timestamp), be32(n) + payload);
            assert(s =~= head + be64(timestamp) + (be32(n) + payload));
            lemma_read_after(head + be64(timestamp), be32(n) + be32(0), Seq::empty());
            assert(read_be32(s, 9) == read_be32(be32(n) + be32(0), 0));
            assert(read_be32(be32(n) + be32(0), 0) == read_be32(be32(n), 0));
            assert(s.subrange(13, 13 + n as int) =~= payload);
        },
        MediaView::Stop => {},
        MediaView::ResolutionRequest { target_width, target_height, bitrate } => {
            lemma_be32_roundtrip(target_width);
            lemma_be32_roundtrip(target_height);
            lemma_be32_roundtrip(bitrate);
            let head = seq![MSG_TYPE_RESOLUTION_REQUEST];
            lemma_read_after(head, be32(target_width) + be32(target_height), be32(bitrate));
            lemma_read_after(head + be32(target_width), be32(target_height) + be32(bitrate), Seq::empty());
            lemma_read_after(head + be32(target_width) + be32(target_height), be32(bitrate) + be32(0), Seq::empty());
            assert(s =~= head + (be32(target_width) + be32(target_height)) + be32(bitrate));
            assert(s =~= head + be32(target_width) + (be32(target_height) + be32(bitrate)) + Seq::empty());
            assert(s =~= head + be32(target_width) + be32(target_height) + (be32(bitrate) + be32(0)).subrange(0, 4) + Seq::empty());
            assert(read_be32(be32(target_width) + be32(target_height), 0) == read_be32(be32(target_width), 0));
            assert(read_be32(be32(target_height) + be32(bitrate), 0) == read_be32(be32(target_height), 0));
            assert(read_be32(be32(bitrate) + be32(0), 0) == read_be32(be32(bitrate), 0));
            assert(read_be32(s, 9) == read_be32(be32(bitrate) + be32(0), 0));
        },
    }
}

/// Encodes a stream-start message announcing the encoded frame size.
pub fn encode_start_message(width: u32, height: u32) -> (r: Vec<u8>)
    ensures
        r@ == media_bytes(MediaView::Start { width, height }),
{
    let mut data: Vec<u8> = Vec::with_capacity(9);
    data.push(MSG_TYPE_START);
    push_be32(&mut data, width);
    push_be32(&mut data, height);
    data
}

/// Encodes a frame message carrying one H.264 access unit.
pub fn encode_frame_message(timestamp: u64, frame_data: &[u8]) -> (r: Vec<u8>)
    requires
        frame_data@.len() <= u32::MAX,
    ensures
        r@ == media_bytes(MediaView::Frame { timestamp, payload: frame_data@ }),
{
    let mut data: Vec<u8> = Vec::new();
    data.push(MSG_TYPE_FRAME);
    push_be64(&mut data, timestamp);
    push_be32(&mut data, frame_data.len() as u32);
    data.extend_from_slice(frame_data);
    assert(data@ =~= media_bytes(MediaView::Frame { timestamp, payload: frame_data@ }));
    data
}

/// Encodes a stream-stop message.
pub fn encode_stop_message() -> (r: Vec<u8>)
    ensures
        r@ == media_bytes(MediaView::Stop),
{
    let mut data: Vec<u8> = Vec::new();
    data.push(MSG_TYPE_STOP);
    assert(data@ =~= media_bytes(MediaView::Stop));
    data
}

/// Encodes a resolution request from viewer to sharer.
pub fn encode_resolution_request(target_width: u32, target_height: u32, bitrate: u32) -> (r: Vec<u8>)
    ensures
        r@ == media_bytes(MediaView::ResolutionRequest { target_width, target_height, bitrate }),
{
    let mut data: Vec<u8> = Vec::with_capacity(13);
    data.push(MSG_TYPE_RESOLUTION_REQUEST);
    push_be32(&mut data, target_width);
    push_be32(&mut data, target_height);
    push_be32(&mut data, bitrate);
    data
}

/// Encodes a resolution request from viewer to sharer.
pub fn encode_resolution_request_msg(target_width: u32, target_height: u32, bitrate: u32) -> (r: Vec<u8>)
    ensures
        r@ == media_bytes(MediaView::ResolutionRequest { target_width, target_height, bitrate }),
{
    encode_resolution_request(target_width, target_height, bitrate)
}

/// Whether a framed payload is a media-stream message, judged by its first
/// byte.
pub fn is_simple_message(data: &[u8]) -> (r: bool)
    ensures
        r == is_media_tag(data@),
{
    if data.len() == 0 {
        return false;
    }
    let t = data[0];
    t == MSG_TYPE_START || t == MSG_TYPE_FRAME || t == MSG_TYPE_STOP || t == MSG_TYPE_RESOLUTION_REQUEST
}

/// Decodes a media-stream message.
pub fn parse_media_message(data: &[u8]) -> (r: Option<MediaMessage>)
    ensures
        opt_media_view(r) == parse_media(data@),
{
    let n = data.len();
    if n == 0 {
        return None;
    }
    let t = data[0];
    if t == MSG_TYPE_START {
        if n >= 9 {
            Some(MediaMessage::Start { width: get_be32(data, 1), height: get_be32(data, 5) })
        } else {
            None
        }
    } else if t == MSG_TYPE_FRAME {
        if n < 13 {
            return None;
        }
        let timestamp = get_be64(data, 1);
        let len = get_be32(data, 9) as usize;
        if n - 13 < len {
            return None;
        }
        let payload = slice_subrange(data, 13, 13 + len);
        let v = slice_to_vec(payload);
        Some(MediaMessage::Frame { timestamp, payload: v })
    } else if t == MSG_TYPE_STOP {
        Some(MediaMessage::Stop)
    } else if t == MSG_TYPE_RESOLUTION_REQUEST {
        if n >= 13 {
            Some(
                MediaMessage::ResolutionRequest {
                    target_width: get_be32(data, 1),
                    target_height: get_be32(data, 5),
                    bitrate: get_be32(data, 9),
                },
            )
        } else {
            None
        }
    } else {
        None
    }
}

} // verus!
