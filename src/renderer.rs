//! Render-side types and decisions: frames handed to the window, the
//! window's admission of frames, and the overlay toolbar.

use crate::sharer::{bitrate_choice, bitrate_option, resolution_box, resolution_option};
use vstd::prelude::*;

verus! {

/// Why rendering failed.
#[derive(Debug)]
pub enum RendererError {
    InitError(String),
    RenderError(String),
    WindowError(String),
    GpuNotAvailable(String),
}

/// Pixel layout of a frame to render.
#[derive(Debug, Clone, Copy, PartialEq, Eq, Structural)]
pub enum FrameFormat {
    BGRA,
    YUV420,
}

/// A frame handed to the render window.
#[derive(Debug)]
pub struct RenderFrame {
    pub width: u32,
    pub height: u32,
    pub format: FrameFormat,
    pub data: Vec<u8>,
    /// For YUV 4:2:0, the Y, U and V plane strides.
    pub strides: Option<[usize; 3]>,
}

impl RenderFrame {
    /// A packed BGRA frame.
    pub fn from_bgra(width: u32, height: u32, data: Vec<u8>) -> (f: Self)
        ensures
            f.width == width,
            f.height == height,
            f.format == FrameFormat::BGRA,
            f.data@ == data@,
            f.strides is None,
    {
        RenderFrame { width, height, format: FrameFormat::BGRA, data, strides: None }
    }

    /// A planar YUV 4:2:0 frame with its plane strides.
    pub fn from_yuv420(width: u32, height: u32, data: Vec<u8>, strides: [usize; 3]) -> (f: Self)
        ensures
            f.width == width,
            f.height == height,
            f.format == FrameFormat::YUV420,
            f.data@ == data@,
            f.strides == Some(strides),
    {
        RenderFrame { width, height, format: FrameFormat::YUV420, data, strides: Some(strides) }
    }
}

/// Whether the window accepts a frame: a closed window refuses it.
pub fn admit_frame(is_open: bool) -> (r: Result<(), RendererError>)
    ensures
        is_open ==> r is Ok,
        !is_open ==> r matches Err(RendererError::WindowError(_)),
{
    if is_open {
        Ok(())
    } else {
        Err(RendererError::WindowError("Window closed".to_string()))
    }
}

/// A rectangle of the window surface, in pixels.
#[derive(Debug, Clone, Copy, PartialEq, Eq, Structural)]
pub struct Viewport {
    pub x: u32,
    pub y: u32,
    pub width: u32,
    pub height: u32,
}

/// The largest rectangle of the frame's aspect ratio inside the surface,
/// centred: full width with bands above and below when the frame is wider
/// than the surface, full height with bands left and right otherwise.
pub open spec fn letterbox(fw: int, fh: int, sw: int, sh: int) -> (int, int, int, int) {
    if fw * sh > sw * fh {
        let h = sw * fh / fw;
        (0, (sh - h) / 2, sw, h)
    } else {
        let w = sh * fw / fh;
        ((sw - w) / 2, 0, w, sh)
    }
}

/// The viewport that shows a `frame_width` by `frame_height` frame in a
/// `surface_width` by `surface_height` surface; see `letterbox`.
pub fn viewport_for(frame_width: u32, frame_height: u32, surface_width: u32, surface_height: u32) -> (v: Viewport)
    requires
        frame_width > 0,
        frame_height > 0,
    ensures
        (v.x as int, v.y as int, v.width as int, v.height as int) == letterbox(
            frame_width as int,
            frame_height as int,
            surface_width as int,
            surface_height as int,
        ),
        v.x + v.width <= surface_width,
        v.y + v.height <= surface_height,
{
    let (fw, fh, sw, sh) = (frame_width as u64, frame_height as u64, surface_width as u64, surface_height as u64);
    assert(fw * sh <= u32::MAX as u64 * u32::MAX as u64 && sw * fh <= u32::MAX as u64 * u32::MAX as u64) by (nonlinear_arith)
        requires fw <= u32::MAX, sh <= u32::MAX, sw <= u32::MAX, fh <= u32::MAX;
    if fw * sh > sw * fh {
        assert((sw * fh) as int / (fw as int) <= sh) by (nonlinear_arith)
            requires fw * sh > sw * fh, fw > 0, sw >= 0, fh >= 0;
        let h = sw * fh / fw;
        Viewport { x: 0, y: ((sh - h) / 2) as u32, width: surface_width, height: h as u32 }
    } else {
        assert((sh * fw) as int / (fh as int) <= sw) by (nonlinear_arith)
            requires fw * sh <= sw * fh, fh > 0, sh >= 0, fw >= 0;
        let w = sh * fw / fh;
        Viewport { x: ((sw - w) / 2) as u32, y: 0, width: w as u32, height: surface_height }
    }
}

/// The window's inbound frame queue of capacity one: a new frame replaces
/// any frame not yet presented.
pub struct LatestFrameSlot<T> {
    pending: Option<T>,
}

impl<T> LatestFrameSlot<T> {
    /// An empty slot.
    pub fn new() -> (r: Self)
        ensures
            r.pending() is None,
    {
        LatestFrameSlot { pending: None }
    }

    /// The frame waiting to be presented.
    pub closed spec fn pending(&self) -> Option<T> {
        self.pending
    }

    /// Admits a frame, dropping (and returning) the one still waiting.
    pub fn put(&mut self, frame: T) -> (dropped: Option<T>)
        ensures
            final(self).pending() == Some(frame),
            dropped == old(self).pending(),
    {
        let dropped = self.pending.take();
        self.pending = Some(frame);
        dropped
    }

    /// Takes the frame to present, leaving the slot empty.
    pub fn take(&mut self) -> (r: Option<T>)
        ensures
            r == old(self).pending(),
            final(self).pending() is None,
    {
        self.pending.take()
    }
}

/// How the window surface presents frames.
#[derive(Debug, Clone, Copy, PartialEq, Eq, Structural)]
pub enum PresentMode {
    Mailbox,
    Immediate,
    Fifo,
    Other,
}

/// The lowest-latency present mode among those supported: mailbox, else
/// immediate, else first-in-first-out (which every surface supports).
pub open spec fn preferred_present_mode(supported: Seq<PresentMode>) -> PresentMode {
    if supported.contains(PresentMode::Mailbox) {
        PresentMode::Mailbox
    } else if supported.contains(PresentMode::Immediate) {
        PresentMode::Immediate
    } else {
        PresentMode::Fifo
    }
}

fn supports(supported: &Vec<PresentMode>, mode: PresentMode) -> (r: bool)
    ensures
        r == supported@.contains(mode),
{
    let mut i: usize = 0;
    while i < supported.len()
        invariant
            i <= supported@.len(),
            forall|j: int| 0 <= j < i ==> supported@[j] != mode,
        decreases supported@.len() - i,
    {
        if supported[i] == mode {
            return true;
        }
        i = i + 1;
    }
    false
}

/// Picks the present mode for the window surface; see
/// `preferred_present_mode`.
pub fn choose_present_mode(supported: &Vec<PresentMode>) -> (r: PresentMode)
    ensures
        r == preferred_present_mode(supported@),
{
    if supports(supported, PresentMode::Mailbox) {
        PresentMode::Mailbox
    } else if supports(supported, PresentMode::Immediate) {
        PresentMode::Immediate
    } else {
        PresentMode::Fifo
    }
}

/// How long the overlay stays after the last pointer move, in
/// milliseconds.
pub const OVERLAY_HIDE_DELAY_MS: u64 = 3000;

/// Whether the overlay toolbar is shown: the pointer is inside the window
/// and moved within the hide delay.
pub fn overlay_visible(pointer_inside: bool, now_ms: u64, last_move_ms: u64) -> (r: bool)
    ensures
        r == (pointer_inside && now_ms >= last_move_ms && now_ms - last_move_ms < OVERLAY_HIDE_DELAY_MS),
{
    pointer_inside && now_ms >= last_move_ms && now_ms - last_move_ms < OVERLAY_HIDE_DELAY_MS
}

/// The request that the toolbar emits for its two selectors:
/// `(target width, target height, bitrate)`.
pub fn toolbar_request(res_index: usize, bitrate_index: usize) -> (r: (u32, u32, u32))
    ensures
        (r.0, r.1) == resolution_box(res_index as int),
        r.2 == bitrate_choice(bitrate_index as int),
{
    let res = resolution_option(res_index);
    let br = bitrate_option(bitrate_index);
    (res.target_width, res.target_height, br.bitrate)
}

} // verus!
