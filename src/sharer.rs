//! Decisions of the sharing side: the sharing on/off state, the stream plan
//! for a display, and the per-viewer frame loop (resolution renegotiation,
//! frame stamping and framing). The capture, the codec and the stream are
//! driven by the caller, which reports back what happened.

use crate::encoder::{EncodedFrame, EncoderConfig, EncoderPreset};
use crate::media::{
    encode_frame_message, encode_start_message, encode_stop_message, media_bytes,
    parse_media_message, parse_media, MediaMessage, MediaView,
};
use crate::scaler::{
    fit_dims, keeps_aspect, lemma_fit_dims_bounds, FrameScaler, OPENH264_MAX_HEIGHT,
    OPENH264_MAX_WIDTH,
};
use vstd::prelude::*;

verus! {

/// Frames per second of a stream.
pub const SIMPLE_FPS: u32 = 30;

/// Width of the box a new stream is first fitted into.
pub const SIMPLE_TARGET_WIDTH: u32 = 1280;

/// Height of the box a new stream is first fitted into.
pub const SIMPLE_TARGET_HEIGHT: u32 = 720;

/// Bitrate of a new stream.
pub const SIMPLE_BITRATE: u32 = 2_000_000;

/// A resolution choice of the viewer toolbar.
#[derive(Debug, Clone, Copy)]
pub struct ResolutionOption {
    pub label: &'static str,
    pub target_width: u32,
    pub target_height: u32,
}

/// A bitrate choice of the viewer toolbar.
#[derive(Debug, Clone, Copy)]
pub struct BitrateOption {
    pub label: &'static str,
    pub bitrate: u32,
}

/// Target box of resolution choice `i` (720p, 1080p, 1440p, and the
/// source size up to the encoder maximum); indices past the last give the
/// last.
pub open spec fn resolution_box(i: int) -> (u32, u32) {
    if i <= 0 {
        (1280, 720)
    } else if i == 1 {
        (1920, 1080)
    } else if i == 2 {
        (2560, 1440)
    } else {
        (3840, 2160)
    }
}

/// Bitrate of bitrate choice `i` (2, 4, 8, 12 Mbps); indices past the last
/// give the last.
pub open spec fn bitrate_choice(i: int) -> u32 {
    if i <= 0 {
        2_000_000
    } else if i == 1 {
        4_000_000
    } else if i == 2 {
        8_000_000
    } else {
        12_000_000
    }
}

/// Resolution choice `index` of the toolbar.
pub fn resolution_option(index: usize) -> (r: ResolutionOption)
    ensures
        (r.target_width, r.target_height) == resolution_box(index as int),
{
    if index == 0 {
        ResolutionOption { label: "720p", target_width: 1280, target_height: 720 }
    } else if index == 1 {
        ResolutionOption { label: "1080p", target_width: 1920, target_height: 1080 }
    } else if index == 2 {
        ResolutionOption { label: "1440p", target_width: 2560, target_height: 1440 }
    } else {
        ResolutionOption { label: "Original", target_width: 3840, target_height: 2160 }
    }
}

/// Bitrate choice `index` of the toolbar.
pub fn bitrate_option(index: usize) -> (r: BitrateOption)
    ensures
        r.bitrate == bitrate_choice(index as int),
{
    if index == 0 {
        BitrateOption { label: "2 Mbps", bitrate: 2_000_000 }
    } else if index == 1 {
        BitrateOption { label: "4 Mbps", bitrate: 4_000_000 }
    } else if index == 2 {
        BitrateOption { label: "8 Mbps", bitrate: 8_000_000 }
    } else {
        BitrateOption { label: "12 Mbps", bitrate: 12_000_000 }
    }
}

/// Encoder settings of a stream at the given size and bitrate.
pub open spec fn stream_config(width: u32, height: u32, bitrate: u32) -> EncoderConfig {
    EncoderConfig {
        width,
        height,
        fps: SIMPLE_FPS,
        bitrate,
        max_bitrate: if bitrate <= u32::MAX / 2 {
            (bitrate * 2) as u32
        } else {
            u32::MAX
        },
        keyframe_interval: SIMPLE_FPS,
        preset: EncoderPreset::UltraFast,
    }
}

/// Encoder settings of a stream at the given size and bitrate.
pub fn make_stream_config(width: u32, height: u32, bitrate: u32) -> (c: EncoderConfig)
    ensures
        c == stream_config(width, height, bitrate),
{
    EncoderConfig {
        width,
        height,
        fps: SIMPLE_FPS,
        bitrate,
        max_bitrate: if bitrate <= u32::MAX / 2 {
            bitrate * 2
        } else {
            u32::MAX
        },
        keyframe_interval: SIMPLE_FPS,
        preset: EncoderPreset::UltraFast,
    }
}

/// Whether the sharing side is on. Starting while on does nothing;
/// stopping is idempotent.
pub struct SharingState {
    active: bool,
}

/// What a start request leads to.
#[derive(Debug, Clone, Copy, PartialEq, Eq, Structural)]
pub enum StartDecision {
    /// Sharing is already on; the request succeeds without effect.
    AlreadySharing,
    /// Capture and encoder are to be set up, then `finish_start` called.
    SetUp,
}

impl SharingState {
    /// Sharing off.
    pub fn new() -> (r: Self)
        ensures
            !r.is_active(),
    {
        SharingState { active: false }
    }

    /// Whether sharing is on.
    pub closed spec fn is_active(&self) -> bool {
        self.active
    }

    /// Whether sharing is on.
    pub fn is_simple_sharing(&self) -> (r: bool)
        ensures
            r == self.is_active(),
    {
        self.active
    }

    /// Decides what a start request does.
    pub fn start_sharing(&self) -> (d: StartDecision)
        ensures
            d == start_decision(self.is_active()),
    {
        if self.active {
            StartDecision::AlreadySharing
        } else {
            StartDecision::SetUp
        }
    }

    /// Records that capture and encoder are set up.
    pub fn finish_start(&mut self)
        ensures
            final(self).is_active() == after_finish_start(old(self).is_active()),
    {
        self.active = true;
    }

    /// Turns sharing off.
    pub fn stop_sharing(&mut self)
        ensures
            final(self).is_active() == after_stop(old(self).is_active()),
    {
        self.active = false;
    }
}

/// What a start request leads to in a given sharing state.
pub open spec fn start_decision(active: bool) -> StartDecision {
    if active {
        StartDecision::AlreadySharing
    } else {
        StartDecision::SetUp
    }
}

/// Sharing state after `finish_start`.
pub open spec fn after_finish_start(active: bool) -> bool {
    true
}

/// Sharing state after `stop_sharing`.
pub open spec fn after_stop(active: bool) -> bool {
    false
}

/// Sharing state after a start request that succeeds: set up and turned on,
/// or left as it is when already on.
pub open spec fn after_start(active: bool) -> bool {
    match start_decision(active) {
        StartDecision::SetUp => after_finish_start(active),
        StartDecision::AlreadySharing => active,
    }
}

/// Start, stop, start: from any state, a start leaves sharing on; after a
/// stop, the next start is not skipped but sets sharing up again, and
/// leaves it on.
pub proof fn lemma_restart_after_stop(active: bool)
    ensures
        after_start(active),
        start_decision(after_stop(after_start(active))) == StartDecision::SetUp,
        after_start(after_stop(after_start(active))),
{
}

/// A display offered by the capture backend.
#[derive(Debug, Clone, Copy, PartialEq, Eq, Structural)]
pub struct DisplaySize {
    pub id: u32,
    pub width: u32,
    pub height: u32,
}

/// Picks the display to share: the one with the requested id, else the
/// first one.
pub fn select_display(displays: &Vec<DisplaySize>, id: u32) -> (r: Option<usize>)
    ensures
        r matches Some(i) ==> i < displays@.len() && (displays@[i as int].id == id || (i == 0 && forall|j: int| 0 <= j < displays@.len() ==> #[trigger] displays@[j].id != id)),
        r matches Some(i) ==> (displays@[i as int].id == id ==> forall|j: int| 0 <= j < i ==> #[trigger] displays@[j].id != id),
        r is None ==> displays@.len() == 0,
{
    let mut i: usize = 0;
    while i < displays.len()
        invariant
            i <= displays@.len(),
            forall|j: int| 0 <= j < i ==> #[trigger] displays@[j].id != id,
        decreases displays@.len() - i,
    {
        if displays[i].id == id {
            return Some(i);
        }
        i = i + 1;
    }
    if displays.len() > 0 {
        Some(0)
    } else {
        None
    }
}

/// How a stream of a display is produced: the scaler that fits captured
/// frames into the first target box, and the encoder settings at the
/// scaled size.
pub struct StreamPlan {
    pub scaler: FrameScaler,
    pub config: EncoderConfig,
}

/// The plan for streaming a display of the given size.
pub fn plan_stream(width: u32, height: u32) -> (p: StreamPlan)
    ensures
        p.scaler.wf(),
        p.scaler.src_width == width,
        p.scaler.src_height == height,
        (p.scaler.dst_width as int, p.scaler.dst_height as int) == fit_dims(
            width as int,
            height as int,
            SIMPLE_TARGET_WIDTH as int,
            SIMPLE_TARGET_HEIGHT as int,
        ),
        p.config == stream_config(p.scaler.dst_width, p.scaler.dst_height, SIMPLE_BITRATE),
        p.config.width % 2 == 0 && p.config.height % 2 == 0,
        p.config.width <= OPENH264_MAX_WIDTH && p.config.height <= OPENH264_MAX_HEIGHT,
        p.config.width <= SIMPLE_TARGET_WIDTH && p.config.height <= SIMPLE_TARGET_HEIGHT,
        keeps_aspect(width as int, height as int, p.config.width as int, p.config.height as int),
{
    let scaler = FrameScaler::new_with_target(width, height, SIMPLE_TARGET_WIDTH, SIMPLE_TARGET_HEIGHT);
    let config = make_stream_config(scaler.dst_width, scaler.dst_height, SIMPLE_BITRATE);
    StreamPlan { scaler, config }
}

/// What to do with a message a viewer sent upstream.
pub enum UpstreamAction {
    /// Nothing.
    Ignore,
    /// Re-create the encoder with `config`; once it is up, call
    /// `commit_reconfigure` with `scaler` and send `start_message`.
    Reconfigure { scaler: FrameScaler, config: EncoderConfig, start_message: Vec<u8> },
}

/// The per-viewer frame loop state.
pub struct FrameLoop {
    pub scaler: FrameScaler,
    pub encode_width: u32,
    pub encode_height: u32,
    pub sequence: u32,
    pub last_timestamp: u64,
}

impl FrameLoop {
    /// The loop state for a stream with the given plan.
    pub fn new(plan: &StreamPlan) -> (r: (FrameLoop, Vec<u8>))
        requires
            plan.scaler.wf(),
        ensures
            r.0.scaler == plan.scaler,
            r.0.encode_width == plan.scaler.dst_width,
            r.0.encode_height == plan.scaler.dst_height,
            r.0.sequence == 0,
            r.0.last_timestamp == 0,
            r.1@ == media_bytes(MediaView::Start { width: plan.scaler.dst_width, height: plan.scaler.dst_height }),
    {
        let s = &plan.scaler;
        let scaler = FrameScaler {
            src_width: s.src_width,
            src_height: s.src_height,
            dst_width: s.dst_width,
            dst_height: s.dst_height,
            needs_scaling: s.needs_scaling,
            mode: s.mode,
        };
        let start = encode_start_message(scaler.dst_width, scaler.dst_height);
        let (w, h) = (scaler.dst_width, scaler.dst_height);
        (FrameLoop { scaler, encode_width: w, encode_height: h, sequence: 0, last_timestamp: 0 }, start)
    }

    /// Reacts to a payload received from the viewer. A resolution request
    /// refits the source into the requested box and asks for a new
    /// encoder at that size and bitrate, announced by a new stream-start
    /// message; anything else is ignored.
    pub fn on_upstream(&self, payload: &[u8]) -> (a: UpstreamAction)
        ensures
            match parse_media(payload@) {
                Some(MediaView::ResolutionRequest { target_width, target_height, bitrate }) => {
                    a matches UpstreamAction::Reconfigure { scaler, config, start_message } && scaler.wf()
                        && scaler.src_width == self.scaler.src_width && scaler.src_height
                        == self.scaler.src_height && (scaler.dst_width as int, scaler.dst_height as int)
                        == fit_dims(
                        self.scaler.src_width as int,
                        self.scaler.src_height as int,
                        target_width as int,
                        target_height as int,
                    ) && scaler.dst_width <= target_width && scaler.dst_height <= target_height
                        && keeps_aspect(
                        self.scaler.src_width as int,
                        self.scaler.src_height as int,
                        scaler.dst_width as int,
                        scaler.dst_height as int,
                    ) && config == stream_config(scaler.dst_width, scaler.dst_height, bitrate)
                        && start_message@ == media_bytes(
                        MediaView::Start { width: scaler.dst_width, height: scaler.dst_height },
                    )
                },
                _ => a is Ignore,
            },
    {
        match parse_media_message(payload) {
            Some(MediaMessage::ResolutionRequest { target_width, target_height, bitrate }) => {
                let scaler = FrameScaler::new_with_target(
                    self.scaler.src_width,
                    self.scaler.src_height,
                    target_width,
                    target_height,
                );
                let config = make_stream_config(scaler.dst_width, scaler.dst_height, bitrate);
                let start_message = encode_start_message(scaler.dst_width, scaler.dst_height);
                UpstreamAction::Reconfigure { scaler, config, start_message }
            },
            _ => UpstreamAction::Ignore,
        }
    }

    /// Adopts the new scaler once its encoder is up; the frame counter
    /// restarts.
    pub fn commit_reconfigure(&mut self, scaler: FrameScaler)
        ensures
            final(self).scaler == scaler,
            final(self).encode_width == scaler.dst_width,
            final(self).encode_height == scaler.dst_height,
            final(self).sequence == 0,
            final(self).last_timestamp == old(self).last_timestamp,
    {
        self.encode_width = scaler.dst_width;
        self.encode_height = scaler.dst_height;
        self.scaler = scaler;
        self.sequence = 0;
    }

    /// The timestamp of the next frame: the clock reading, but never
    /// earlier than the previous frame's.
    pub fn stamp(&mut self, clock_ms: u64) -> (t: u64)
        ensures
            t >= old(self).last_timestamp,
            t >= clock_ms,
            t == next_stamp(old(self).last_timestamp, clock_ms),
            final(self).last_timestamp == t,
            final(self).scaler == old(self).scaler,
            final(self).sequence == old(self).sequence,
            final(self).encode_width == old(self).encode_width,
            final(self).encode_height == old(self).encode_height,
    {
        let t = if clock_ms >= self.last_timestamp {
            clock_ms
        } else {
            self.last_timestamp
        };
        self.last_timestamp = t;
        t
    }

    /// The message for one encoded frame, stamped by `stamp`; `None` for
    /// empty encoder output, which is skipped. Either way the frame counter
    /// advances.
    pub fn frame_message(&mut self, encoded: &EncodedFrame, clock_ms: u64) -> (r: Option<Vec<u8>>)
        requires
            encoded.data@.len() <= u32::MAX,
        ensures
            encoded.data@.len() == 0 ==> r is None && final(self).last_timestamp == old(self).last_timestamp,
            encoded.data@.len() > 0 ==> ({
                let t = next_stamp(old(self).last_timestamp, clock_ms);
                &&& r matches Some(m) && m@ == media_bytes(MediaView::Frame { timestamp: t, payload: encoded.data@ })
                &&& final(self).last_timestamp == t
            }),
            final(self).last_timestamp >= old(self).last_timestamp,
            final(self).sequence == (if old(self).sequence < u32::MAX { old(self).sequence + 1 } else { old(self).sequence as int }),
            final(self).scaler == old(self).scaler,
            final(self).encode_width == old(self).encode_width,
            final(self).encode_height == old(self).encode_height,
    {
        let r = if encoded.data.len() == 0 {
            None
        } else {
            let t = self.stamp(clock_ms);
            Some(encode_frame_message(t, encoded.data.as_slice()))
        };
        if self.sequence < u32::MAX {
            self.sequence = self.sequence + 1;
        }
        r
    }

    /// The message that ends the stream.
    pub fn stop_message(&self) -> (r: Vec<u8>)
        ensures
            r@ == media_bytes(MediaView::Stop),
    {
        encode_stop_message()
    }
}

/// The timestamp given to a frame stamped at clock reading `clock` after a
/// frame stamped `last`.
pub open spec fn next_stamp(last: u64, clock: u64) -> u64 {
    if clock >= last {
        clock
    } else {
        last
    }
}

/// The timestamps given to frames stamped at the clock readings `clocks`,
/// in order, after a frame stamped `last`.
pub open spec fn stamps(last: u64, clocks: Seq<u64>) -> Seq<u64>
    decreases clocks.len(),
{
    if clocks.len() == 0 {
        Seq::empty()
    } else {
        let t = next_stamp(last, clocks[0]);
        seq![t] + stamps(t, clocks.drop_first())
    }
}

/// Frame timestamps sent on one stream never decrease: whatever the clock
/// reads, and even when it goes back, each stamped frame carries a
/// timestamp no earlier than every frame before it.
pub proof fn lemma_stamps_nondecreasing(last: u64, clocks: Seq<u64>)
    ensures
        stamps(last, clocks).len() == clocks.len(),
        forall|i: int| 0 <= i < clocks.len() ==> last <= #[trigger] stamps(last, clocks)[i],
        forall|i: int, j: int| 0 <= i <= j < clocks.len() ==> #[trigger] stamps(last, clocks)[i] <= #[trigger] stamps(last, clocks)[j],
    decreases clocks.len(),
{
    if clocks.len() > 0 {
        let t = next_stamp(last, clocks[0]);
        let rest = stamps(t, clocks.drop_first());
        lemma_stamps_nondecreasing(t, clocks.drop_first());
        let s = stamps(last, clocks);
        assert(s == seq![t] + rest);
        assert forall|i: int| 0 <= i < clocks.len() implies last <= #[trigger] s[i] by {
            if i > 0 {
                assert(s[i] == rest[i - 1]);
            }
        }
        assert forall|i: int, j: int| 0 <= i <= j < clocks.len() implies #[trigger] s[i] <= #[trigger] s[j] by {
            if i > 0 {
                assert(s[i] == rest[i - 1] && s[j] == rest[j - 1]);
            } else if j > 0 {
                assert(s[j] == rest[j - 1]);
            }
        }
    }
}

/// Whatever the display size, the stream planned for it is encoded at even
/// dimensions within the encoder maximum and the first target box, with the
/// display's aspect ratio; the stream-start message announces that size.
pub proof fn lemma_planned_size_legal(width: u32, height: u32)
    ensures
        ({
            let (dw, dh) = fit_dims(width as int, height as int, SIMPLE_TARGET_WIDTH as int, SIMPLE_TARGET_HEIGHT as int);
            &&& dw % 2 == 0 && dh % 2 == 0
            &&& dw <= OPENH264_MAX_WIDTH && dh <= OPENH264_MAX_HEIGHT
            &&& keeps_aspect(width as int, height as int, dw, dh)
        }),
{
    lemma_fit_dims_bounds(width as int, height as int, SIMPLE_TARGET_WIDTH as int, SIMPLE_TARGET_HEIGHT as int);
}

/// After a resolution request for the box `(w, h)`, the next stream-start
/// announces a size within the box and the source, with even dimensions
/// and the source's aspect ratio.
pub proof fn lemma_renegotiated_size(src_w: u32, src_h: u32, w: u32, h: u32)
    ensures
        ({
            let (dw, dh) = fit_dims(src_w as int, src_h as int, w as int, h as int);
            &&& dw <= w && dh <= h
            &&& dw <= src_w && dh <= src_h
            &&& dw % 2 == 0 && dh % 2 == 0
            &&& keeps_aspect(src_w as int, src_h as int, dw, dh)
        }),
{
    lemma_fit_dims_bounds(src_w as int, src_h as int, w as int, h as int);
}

} // verus!
