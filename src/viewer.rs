//! Decisions of the viewing side for one media stream: decoder and window
//! set-up on a stream start, which drained frames to decode and which to
//! show, and when the session ends. The decoder, the window and the stream
//! are driven by the caller.

use crate::connections::{select, ConnectionRegistry};
use crate::decoder::{DecoderConfig, OutputFormat};
use crate::media::{
    encode_resolution_request, media_bytes, parse_media, parse_media_message, MediaMessage,
    MediaView,
};
use crate::sharer::{bitrate_choice, bitrate_option, resolution_box, resolution_option};
use vstd::prelude::*;

verus! {

/// Phase of a viewing session.
#[derive(Debug, Clone, Copy, PartialEq, Eq, Structural)]
pub enum SessionPhase {
    Created,
    Started,
    Ended,
}

/// What a stream start asks of the caller.
#[derive(Debug, Clone, Copy, PartialEq, Eq, Structural)]
pub struct StartPlan {
    /// Settings to (re)initialise the decoder with.
    pub decoder_config: DecoderConfig,
    /// Whether a render window has to be created (the first start only).
    pub create_window: bool,
}

/// What a batch of drained frame payloads asks of the caller.
pub struct FramePlan {
    /// Access units to decode, in stream order, with their timestamps.
    pub decode: Vec<(u64, Vec<u8>)>,
    /// Whether the last decoded picture is to be shown.
    pub render_last: bool,
    /// Whether the session ends after this batch.
    pub end: bool,
}

/// The frames of a drained batch before its first stop message, with
/// payloads that are not well-formed frames skipped.
pub open spec fn batch_frames(ps: Seq<Seq<u8>>) -> Seq<(u64, Seq<u8>)>
    decreases ps.len(),
{
    if ps.len() == 0 {
        Seq::empty()
    } else {
        match parse_media(ps[0]) {
            Some(MediaView::Stop) => Seq::empty(),
            Some(MediaView::Frame { timestamp, payload }) => seq![(timestamp, payload)] + batch_frames(ps.drop_first()),
            _ => batch_frames(ps.drop_first()),
        }
    }
}

/// Whether a drained batch holds a stop message.
pub open spec fn batch_stops(ps: Seq<Seq<u8>>) -> bool
    decreases ps.len(),
{
    if ps.len() == 0 {
        false
    } else if parse_media(ps[0]) == Some(MediaView::Stop) {
        true
    } else {
        batch_stops(ps.drop_first())
    }
}

/// The payloads of a batch as byte sequences.
pub open spec fn payload_views(ps: Seq<Vec<u8>>) -> Seq<Seq<u8>> {
    ps.map_values(|v: Vec<u8>| v@)
}

/// The state of one viewing session.
pub struct ViewerSession {
    pub phase: SessionPhase,
    pub width: u32,
    pub height: u32,
    pub has_window: bool,
    pub frame_count: u32,
}

impl ViewerSession {
    /// A session that has not seen a stream start yet.
    pub fn new() -> (r: Self)
        ensures
            r.phase == SessionPhase::Created,
            !r.has_window,
            r.frame_count == 0,
    {
        ViewerSession { phase: SessionPhase::Created, width: 0, height: 0, has_window: false, frame_count: 0 }
    }

    /// A stream start: the decoder is (re)initialised for the announced
    /// size with planar output, a window is created if there is none, and
    /// the frame counter restarts.
    pub fn on_start(&mut self, width: u32, height: u32) -> (p: StartPlan)
        ensures
            p.decoder_config == (DecoderConfig { width, height, output_format: OutputFormat::YUV420 }),
            p.create_window == !old(self).has_window,
            final(self).phase == SessionPhase::Started,
            final(self).has_window,
            final(self).width == width,
            final(self).height == height,
            final(self).frame_count == 0,
    {
        let create_window = !self.has_window;
        self.phase = SessionPhase::Started;
        self.has_window = true;
        self.width = width;
        self.height = height;
        self.frame_count = 0;
        StartPlan {
            decoder_config: DecoderConfig { width, height, output_format: OutputFormat::YUV420 },
            create_window,
        }
    }

    /// A batch of frame payloads drained from the stream. All frames before
    /// a stop are decoded in order (later frames depend on earlier ones) and
    /// only the last is shown. A closed window ends the session instead; a
    /// batch before any stream start is dropped.
    pub fn on_frames(&mut self, payloads: &Vec<Vec<u8>>, window_open: bool) -> (p: FramePlan)
        ensures
            old(self).phase != SessionPhase::Started ==> p.decode@.len() == 0 && !p.render_last && !p.end
                && final(self).phase == old(self).phase,
            old(self).phase == SessionPhase::Started && !window_open ==> p.decode@.len() == 0 && p.end
                && final(self).phase == SessionPhase::Ended,
            old(self).phase == SessionPhase::Started && window_open ==> ({
                let frames = batch_frames(payload_views(payloads@));
                &&& p.decode@.len() == frames.len()
                &&& forall|i: int| 0 <= i < frames.len() ==> (#[trigger] p.decode@[i]).0 == frames[i].0 && p.decode@[i].1@ == frames[i].1
                &&& p.render_last == (frames.len() > 0)
                &&& p.end == batch_stops(payload_views(payloads@))
                &&& final(self).phase == (if p.end { SessionPhase::Ended } else { SessionPhase::Started })
            }),
            final(self).has_window == old(self).has_window,
            final(self).frame_count == old(self).frame_count,
    {
        let mut decode: Vec<(u64, Vec<u8>)> = Vec::new();
        if self.phase != SessionPhase::Started {
            return FramePlan { decode, render_last: false, end: false };
        }
        if !window_open {
            self.phase = SessionPhase::Ended;
            return FramePlan { decode, render_last: false, end: true };
        }
        let ghost views = payload_views(payloads@);
        let mut i: usize = 0;
        let mut end = false;
        assert(views.subrange(0, views.len() as int) =~= views);
        assert(Seq::new(decode@.len(), |k: int| (decode@[k].0, decode@[k].1@)) =~= Seq::<(u64, Seq<u8>)>::empty());
        assert(batch_frames(views) =~= Seq::<(u64, Seq<u8>)>::empty() + batch_frames(views.subrange(0, views.len() as int)));
        while i < payloads.len()
            invariant_except_break
                !end,
            invariant
                views == payload_views(payloads@),
                i <= payloads@.len(),
                batch_frames(views) == Seq::new(decode@.len(), |k: int| (decode@[k].0, decode@[k].1@)) + (if end {
                    Seq::empty()
                } else {
                    batch_frames(views.subrange(i as int, views.len() as int))
                }),
                batch_stops(views) == (end || batch_stops(views.subrange(i as int, views.len() as int))),
            ensures
                end || i == payloads@.len(),
                batch_frames(views) == Seq::new(decode@.len(), |k: int| (decode@[k].0, decode@[k].1@)),
                batch_stops(views) == end,
            decreases payloads@.len() - i,
        {
            let ghost rest = views.subrange(i as int, views.len() as int);
            proof {
                assert(rest.drop_first() =~= views.subrange(i + 1, views.len() as int));
                assert(rest[0] == payloads@[i as int]@);
            }
            match parse_media_message(payloads[i].as_slice()) {
                Some(MediaMessage::Stop) => {
                    end = true;
                    break;
                },
                Some(MediaMessage::Frame { timestamp, payload }) => {
                    let ghost before = decode@;
                    decode.push((timestamp, payload));
                    assert(Seq::new(decode@.len(), |k: int| (decode@[k].0, decode@[k].1@)) =~= Seq::new(before.len(), |k: int| (before[k].0, before[k].1@)) + seq![(timestamp, decode@[before.len() as int].1@)]);
                },
                _ => {},
            }
            i = i + 1;
        }
        proof {
            if !end {
                assert(views.subrange(i as int, views.len() as int) =~= Seq::<Seq<u8>>::empty());
            }
        }
        let render_last = decode.len() > 0;
        if end {
            self.phase = SessionPhase::Ended;
        }
        FramePlan { decode, render_last, end }
    }

    /// Records one decoded picture.
    pub fn on_decoded(&mut self)
        ensures
            final(self).frame_count == (if old(self).frame_count < u32::MAX { old(self).frame_count + 1 } else { old(self).frame_count as int }),
            final(self).phase == old(self).phase,
            final(self).has_window == old(self).has_window,
    {
        if self.frame_count < u32::MAX {
            self.frame_count = self.frame_count + 1;
        }
    }

    /// A stop message, a closed window, or a stream error ends the session.
    pub fn end(&mut self)
        ensures
            final(self).phase == SessionPhase::Ended,
            final(self).has_window == old(self).has_window,
    {
        self.phase = SessionPhase::Ended;
    }
}

/// Viewing sessions keyed by the peer's IP, each with the peer's name.
pub struct ViewerSessions {
    sessions: ConnectionRegistry<(String, ViewerSession)>,
}

impl View for ViewerSessions {
    type V = Seq<(String, (String, ViewerSession))>;

    closed spec fn view(&self) -> Seq<(String, (String, ViewerSession))> {
        self.sessions@
    }
}

impl ViewerSessions {
    /// No sessions.
    pub fn new() -> (r: Self)
        ensures
            r@.len() == 0,
    {
        ViewerSessions { sessions: ConnectionRegistry::new() }
    }

    /// Number of sessions.
    pub fn len(&self) -> (r: usize)
        ensures
            r == self@.len(),
    {
        self.sessions.len()
    }

    /// Opens a fresh session for a peer, replacing any session it had; the
    /// window is created when the stream starts.
    pub fn create_viewer_session(&mut self, peer_ip: String, peer_name: String)
        ensures
            final(self)@ == select(
                old(self)@,
                Seq::new(old(self)@.len(), |i: int| old(self)@[i].0@ != peer_ip@),
            ).push(final(self)@.last()),
            final(self)@.last().0 == peer_ip,
            final(self)@.last().1.0 == peer_name,
            final(self)@.last().1.1.phase == SessionPhase::Created,
            !final(self)@.last().1.1.has_window,
    {
        self.sessions.insert(peer_ip, (peer_name, ViewerSession::new()));
    }

    /// Closes the session of a peer, if any.
    pub fn remove_viewer_session(&mut self, peer_ip: &str)
        ensures
            final(self)@ == select(old(self)@, Seq::new(old(self)@.len(), |i: int| old(self)@[i].0@ != peer_ip@)),
            forall|j: int| 0 <= j < final(self)@.len() ==> (#[trigger] final(self)@[j]).0@ != peer_ip@,
    {
        self.sessions.remove_connection(peer_ip);
    }
}

/// The resolution request sent when a window opens with non-default
/// toolbar settings: `None` when both indices are 0.
pub fn initial_resolution_request(res_index: usize, bitrate_index: usize) -> (r: Option<Vec<u8>>)
    ensures
        res_index == 0 && bitrate_index == 0 ==> r is None,
        !(res_index == 0 && bitrate_index == 0) ==> (r matches Some(m) && m@ == media_bytes(
            MediaView::ResolutionRequest {
                target_width: resolution_box(res_index as int).0,
                target_height: resolution_box(res_index as int).1,
                bitrate: bitrate_choice(bitrate_index as int),
            },
        )),
{
    if res_index == 0 && bitrate_index == 0 {
        return None;
    }
    let res = resolution_option(res_index);
    let br = bitrate_option(bitrate_index);
    Some(encode_resolution_request(res.target_width, res.target_height, br.bitrate))
}

} // verus!
