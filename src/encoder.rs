//! H.264 encoding: configuration, BGRA to planar YUV 4:2:0 conversion,
//! keyframe detection on the produced byte stream, the encoder capability
//! set, and the platform encoder selection.

use crate::scaler::{crop_dim, FrameScaler, OPENH264_MAX_HEIGHT, OPENH264_MAX_WIDTH};
use vstd::arithmetic::div_mod::lemma_fundamental_div_mod_converse;
use vstd::prelude::*;

verus! {

/// Why an encoder could not be set up or could not encode.
#[derive(Debug)]
pub enum EncoderError {
    InitError(String),
    EncodeError(String),
    HardwareNotAvailable,
}

/// Speed/quality trade-off of an encoder.
#[derive(Debug, Clone, Copy, PartialEq, Eq, Structural)]
pub enum EncoderPreset {
    UltraFast,
    Fast,
    Medium,
    Quality,
}

/// Encoder settings.
#[derive(Debug, Clone, Copy, PartialEq, Eq, Structural)]
pub struct EncoderConfig {
    pub width: u32,
    pub height: u32,
    pub fps: u32,
    pub bitrate: u32,
    pub max_bitrate: u32,
    pub keyframe_interval: u32,
    pub preset: EncoderPreset,
}

impl Default for EncoderConfig {
    fn default() -> (r: Self)
        ensures
            r == (EncoderConfig {
                width: 1920,
                height: 1080,
                fps: 60,
                bitrate: 8_000_000,
                max_bitrate: 15_000_000,
                keyframe_interval: 60,
                preset: EncoderPreset::UltraFast,
            }),
    {
        EncoderConfig {
            width: 1920,
            height: 1080,
            fps: 60,
            bitrate: 8_000_000,
            max_bitrate: 15_000_000,
            keyframe_interval: 60,
            preset: EncoderPreset::UltraFast,
        }
    }
}

/// Kind of an encoded frame.
#[derive(Debug, Clone, Copy, PartialEq, Eq, Structural)]
pub enum FrameType {
    KeyFrame,
    Delta,
}

/// One encoded access unit.
#[derive(Debug)]
pub struct EncodedFrame {
    pub data: Vec<u8>,
    pub timestamp: u64,
    pub frame_type: FrameType,
    pub size: usize,
}

/// Whether `s[k]` is a NAL header byte of type IDR (5) or sequence
/// parameter set (7) right after an Annex-B start code. A four-byte start
/// code `00 00 00 01` ends in the three-byte one `00 00 01`.
pub open spec fn keyframe_nal_at(s: Seq<u8>, k: int) -> bool {
    &&& 3 <= k < s.len()
    &&& s[k - 3] == 0
    &&& s[k - 2] == 0
    &&& s[k - 1] == 1
    &&& (s[k] % 32 == 5 || s[k] % 32 == 7)
}

/// Whether some NAL unit of the byte stream is an IDR slice or a sequence
/// parameter set.
pub open spec fn is_keyframe_spec(s: Seq<u8>) -> bool {
    exists|k: int| #[trigger] keyframe_nal_at(s, k)
}

/// The frame kind that the byte stream `s` shows.
pub open spec fn frame_type_spec(s: Seq<u8>) -> FrameType {
    if is_keyframe_spec(s) {
        FrameType::KeyFrame
    } else {
        FrameType::Delta
    }
}

/// Whether any NAL unit of an encoded byte stream is an IDR slice or a
/// sequence parameter set.
pub fn is_keyframe(data: &[u8]) -> (r: bool)
    ensures
        r == is_keyframe_spec(data@),
{
    let n = data.len();
    let mut k: usize = 3;
    while k < n
        invariant
            n == data@.len(),
            3 <= k,
            forall|j: int| 0 <= j < k ==> !#[trigger] keyframe_nal_at(data@, j),
        decreases n - k,
    {
        if data[k - 3] == 0 && data[k - 2] == 0 && data[k - 1] == 1 {
            let nal_type = data[k] % 32;
            if nal_type == 5 || nal_type == 7 {
                assert(keyframe_nal_at(data@, k as int));
                return true;
            }
        }
        k = k + 1;
    }
    assert forall|j: int| !#[trigger] keyframe_nal_at(data@, j) by {}
    false
}

/// The frame kind of an encoded byte stream.
pub fn frame_type_of(data: &[u8]) -> (r: FrameType)
    ensures
        r == frame_type_spec(data@),
{
    if is_keyframe(data) {
        FrameType::KeyFrame
    } else {
        FrameType::Delta
    }
}

/// `v` clamped to a byte.
pub open spec fn clamp_byte(v: int) -> u8 {
    if v < 0 {
        0
    } else if v > 255 {
        255
    } else {
        v as u8
    }
}

/// BT.601 luma of a pixel.
pub open spec fn luma(r: int, g: int, b: int) -> u8 {
    clamp_byte((66 * r + 129 * g + 25 * b + 128) / 256 + 16)
}

/// BT.601 blue-difference chroma of a pixel.
pub open spec fn chroma_u(r: int, g: int, b: int) -> u8 {
    clamp_byte((-38 * r - 74 * g + 112 * b + 128) / 256 + 128)
}

/// BT.601 red-difference chroma of a pixel.
pub open spec fn chroma_v(r: int, g: int, b: int) -> u8 {
    clamp_byte((112 * r - 94 * g - 18 * b + 128) / 256 + 128)
}

/// Channel `c` (0 blue, 1 green, 2 red) of pixel `(x, y)` in a BGRA frame
/// `w` pixels wide.
pub open spec fn channel(s: Seq<u8>, w: int, x: int, y: int, c: int) -> int {
    s[(y * w + x) * 4 + c] as int
}

/// Byte `i` of the planar YUV 4:2:0 image of the BGRA frame `s` of size
/// `w` by `h`: the luma plane (`w * h`), then the U and V planes
/// (`w / 2` by `h / 2` each), whose samples take the top-left pixel of each
/// 2x2 block.
pub open spec fn yuv420_at(s: Seq<u8>, w: int, h: int, i: int) -> u8 {
    let cw = w / 2;
    let ch = h / 2;
    if i < w * h {
        let x = i % w;
        let y = i / w;
        luma(channel(s, w, x, y, 2), channel(s, w, x, y, 1), channel(s, w, x, y, 0))
    } else if i < w * h + cw * ch {
        let j = i - w * h;
        let x = 2 * (j % cw);
        let y = 2 * (j / cw);
        chroma_u(channel(s, w, x, y, 2), channel(s, w, x, y, 1), channel(s, w, x, y, 0))
    } else {
        let j = i - w * h - cw * ch;
        let x = 2 * (j % cw);
        let y = 2 * (j / cw);
        chroma_v(channel(s, w, x, y, 2), channel(s, w, x, y, 1), channel(s, w, x, y, 0))
    }
}

/// Length of the planar YUV 4:2:0 image of a `w` by `h` frame.
pub open spec fn yuv420_len(w: int, h: int) -> int {
    w * h + 2 * ((w / 2) * (h / 2))
}

/// `v` clamped to a byte.
pub fn clamp_to_byte(v: i32) -> (r: u8)
    ensures
        r == clamp_byte(v as int),
{
    if v < 0 {
        0
    } else if v > 255 {
        255
    } else {
        v as u8
    }
}

/// Floor of `v / 256` (an arithmetic shift right by 8).
pub fn floor_div_256(v: i32) -> (r: i32)
    requires
        -131072 <= v <= 16777216,
    ensures
        r == v as int / 256,
{
    let r = (v + 131072) / 256 - 512;
    assert((v + 131072) as int / 256 == v as int / 256 + 512) by (nonlinear_arith)
        requires -131072 <= v <= 16777216;
    r
}

fn pixel_luma(b: u8, g: u8, r: u8) -> (y: u8)
    ensures
        y == luma(r as int, g as int, b as int),
{
    let (r, g, b) = (r as i32, g as i32, b as i32);
    clamp_to_byte((66 * r + 129 * g + 25 * b + 128) / 256 + 16)
}

fn pixel_u(b: u8, g: u8, r: u8) -> (u: u8)
    ensures
        u == chroma_u(r as int, g as int, b as int),
{
    let (r, g, b) = (r as i32, g as i32, b as i32);
    clamp_to_byte(floor_div_256(-38 * r - 74 * g + 112 * b + 128) + 128)
}

fn pixel_v(b: u8, g: u8, r: u8) -> (v: u8)
    ensures
        v == chroma_v(r as int, g as int, b as int),
{
    let (r, g, b) = (r as i32, g as i32, b as i32);
    clamp_to_byte(floor_div_256(112 * r - 94 * g - 18 * b + 128) + 128)
}

proof fn lemma_pixel_bound(x: int, y: int, c: int, w: int, h: int)
    requires
        0 <= x < w,
        0 <= y < h,
        0 <= c < 4,
    ensures
        0 <= (y * w + x) * 4 + c < w * h * 4,
{
    assert(0 <= y * w + x < w * h) by (nonlinear_arith)
        requires
            0 <= x < w,
            0 <= y < h,
    ;
}

/// Converts a BGRA frame to planar YUV 4:2:0 (BT.601): one pass over all
/// pixels for luma, one over the 2x2 blocks for chroma.
pub fn bgra_to_yuv420(bgra: &[u8], width: u32, height: u32) -> (yuv: Vec<u8>)
    requires
        bgra@.len() >= width * height * 4,
    ensures
        yuv@.len() == yuv420_len(width as int, height as int),
        forall|i: int| 0 <= i < yuv@.len() ==> #[trigger] yuv@[i] == yuv420_at(bgra@, width as int, height as int, i),
{
    let n = bgra.len();
    let w = width as usize;
    let h = height as usize;
    proof {
        assert(w * h <= w * h * 4 <= n) by (nonlinear_arith)
            requires n >= w * h * 4, w >= 0, h >= 0;
    }
    let mut yuv: Vec<u8> = Vec::new();
    let mut y: usize = 0;
    while y < h
        invariant
            bgra@.len() == n,
            n >= w * h * 4,
            w == width,
            h == height,
            y <= h,
            yuv@.len() == y * w,
            forall|i: int| 0 <= i < yuv@.len() ==> #[trigger] yuv@[i] == yuv420_at(bgra@, w as int, h as int, i),
        decreases h - y,
    {
        let mut x: usize = 0;
        while x < w
            invariant
                bgra@.len() == n,
                n >= w * h * 4,
                w == width,
                h == height,
                y < h,
                x <= w,
                yuv@.len() == y * w + x,
                forall|i: int| 0 <= i < yuv@.len() ==> #[trigger] yuv@[i] == yuv420_at(bgra@, w as int, h as int, i),
            decreases w - x,
        {
            proof {
                lemma_pixel_bound(x as int, y as int, 3, w as int, h as int);
                lemma_fundamental_div_mod_converse(y * w + x, w as int, y as int, x as int);
                assert(y * w + x < w * h) by (nonlinear_arith)
                    requires x < w, y < h;
            }
            let si = (y * w + x) * 4;
            let v = pixel_luma(bgra[si], bgra[si + 1], bgra[si + 2]);
            yuv.push(v);
            x = x + 1;
        }
        proof {
            assert(yuv@.len() == (y + 1) * w) by (nonlinear_arith)
                requires yuv@.len() == y * w + w;
        }
        y = y + 1;
    }
    assert(yuv@.len() == w * h) by (nonlinear_arith)
        requires yuv@.len() == y * w, y == h;
    let cw = w / 2;
    let ch = h / 2;
    let ghost base = (w * h) as int;
    let ghost q = (cw * ch) as int;
    proof {
        assert(cw * ch <= w * h) by (nonlinear_arith)
            requires cw == w / 2, ch == h / 2;
    }
    let mut u_plane: Vec<u8> = Vec::new();
    let mut v_plane: Vec<u8> = Vec::new();
    let mut by: usize = 0;
    while by < ch
        invariant
            bgra@.len() == n,
            n >= w * h * 4,
            w == width,
            h == height,
            cw == w / 2,
            ch == h / 2,
            base == w * h,
            q == cw * ch,
            by <= ch,
            u_plane@.len() == by * cw,
            v_plane@.len() == by * cw,
            yuv@.len() == base,
            forall|i: int| 0 <= i < yuv@.len() ==> #[trigger] yuv@[i] == yuv420_at(bgra@, w as int, h as int, i),
            forall|j: int| 0 <= j < u_plane@.len() ==> #[trigger] u_plane@[j] == yuv420_at(bgra@, w as int, h as int, base + j),
            forall|j: int| 0 <= j < v_plane@.len() ==> #[trigger] v_plane@[j] == yuv420_at(bgra@, w as int, h as int, base + q + j),
        decreases ch - by,
    {
        let mut bx: usize = 0;
        while bx < cw
            invariant
                bgra@.len() == n,
                n >= w * h * 4,
                w == width,
                h == height,
                cw == w / 2,
                ch == h / 2,
                base == w * h,
                q == cw * ch,
                by < ch,
                bx <= cw,
                u_plane@.len() == by * cw + bx,
                v_plane@.len() == by * cw + bx,
                yuv@.len() == base,
                forall|i: int| 0 <= i < yuv@.len() ==> #[trigger] yuv@[i] == yuv420_at(bgra@, w as int, h as int, i),
                forall|j: int| 0 <= j < u_plane@.len() ==> #[trigger] u_plane@[j] == yuv420_at(bgra@, w as int, h as int, base + j),
                forall|j: int| 0 <= j < v_plane@.len() ==> #[trigger] v_plane@[j] == yuv420_at(bgra@, w as int, h as int, base + q + j),
            decreases cw - bx,
        {
            let ghost j = by * cw + bx;
            proof {
                lemma_pixel_bound(2 * bx, 2 * by, 3, w as int, h as int);
                lemma_fundamental_div_mod_converse(j, cw as int, by as int, bx as int);
                assert(j < q) by (nonlinear_arith)
                    requires j == by * cw + bx, bx < cw, by < ch, q == cw * ch;
            }
            let si = ((2 * by) * w + 2 * bx) * 4;
            let b = bgra[si];
            let g = bgra[si + 1];
            let r = bgra[si + 2];
            u_plane.push(pixel_u(b, g, r));
            v_plane.push(pixel_v(b, g, r));
            bx = bx + 1;
        }
        proof {
            assert(u_plane@.len() == (by + 1) * cw) by (nonlinear_arith)
                requires u_plane@.len() == by * cw + cw;
        }
        by = by + 1;
    }
    let ghost y_part = yuv@;
    let ghost u_part = u_plane@;
    let ghost v_part = v_plane@;
    proof {
        assert(u_part.len() == q && v_part.len() == q) by (nonlinear_arith)
            requires u_part.len() == ch * cw, v_part.len() == ch * cw, q == cw * ch;
    }
    yuv.append(&mut u_plane);
    yuv.append(&mut v_plane);
    assert(yuv@ == y_part + u_part + v_part);
    proof {
        assert forall|i: int| 0 <= i < yuv@.len() implies #[trigger] yuv@[i] == yuv420_at(bgra@, w as int, h as int, i) by {
            if i < base {
                assert(yuv@[i] == y_part[i]);
            } else if i < base + q {
                assert(yuv@[i] == u_part[i - base]);
            } else {
                assert(yuv@[i] == v_part[i - base - q]);
                assert(base + q + (i - base - q) == i);
            }
        }
    }
    yuv
}

/// The encoder capability set shared by every backend.
pub trait VideoEncoder {
    /// Prepares the encoder for frames of the configured size.
    fn init(&mut self, config: EncoderConfig) -> (r: Result<(), EncoderError>);

    /// Encodes one BGRA frame. A non-empty result's kind agrees with its
    /// byte stream.
    fn encode(&mut self, frame_data: &[u8], timestamp: u64) -> (r: Result<EncodedFrame, EncoderError>)
        ensures
            r matches Ok(f) ==> f.timestamp == timestamp && f.size == f.data@.len() && (f.data@.len()
                > 0 ==> f.frame_type == frame_type_spec(f.data@)),
    ;

    /// Makes the next encoded frame a keyframe.
    fn request_keyframe(&mut self);

    /// Records a new target bitrate.
    fn set_bitrate(&mut self, bitrate: u32) -> (r: Result<(), EncoderError>);

    /// A name identifying the implementation.
    fn info(&self) -> &'static str;

    /// The encoded frame size, once initialised.
    fn get_dimensions(&self) -> Option<(u32, u32)>;
}

/// NVIDIA hardware encoder; not available in this build.
pub struct NvencEncoder {
    config: Option<EncoderConfig>,
    force_keyframe: bool,
}

/// Linux VA-API hardware encoder; not available in this build.
pub struct VaapiEncoder {
    config: Option<EncoderConfig>,
    force_keyframe: bool,
}

/// macOS VideoToolbox hardware encoder; not available in this build.
pub struct VideoToolboxEncoder {
    config: Option<EncoderConfig>,
    force_keyframe: bool,
}

impl NvencEncoder {
    /// Always fails: the hardware path is not implemented.
    pub fn new() -> (r: Result<Self, EncoderError>)
        ensures
            r matches Err(EncoderError::HardwareNotAvailable),
    {
        Err(EncoderError::HardwareNotAvailable)
    }
}

impl VaapiEncoder {
    /// Always fails: the hardware path is not implemented.
    pub fn new() -> (r: Result<Self, EncoderError>)
        ensures
            r matches Err(EncoderError::HardwareNotAvailable),
    {
        Err(EncoderError::HardwareNotAvailable)
    }
}

impl VideoToolboxEncoder {
    /// Always fails: the hardware path is not implemented.
    pub fn new() -> (r: Result<Self, EncoderError>)
        ensures
            r matches Err(EncoderError::HardwareNotAvailable),
    {
        Err(EncoderError::HardwareNotAvailable)
    }
}

/// Encoded output of a hardware stub: no bytes, with the requested kind.
fn stub_frame(force_keyframe: &mut bool, timestamp: u64) -> (f: EncodedFrame)
    ensures
        f.data@.len() == 0,
        f.size == 0,
        f.timestamp == timestamp,
        f.frame_type == (if *old(force_keyframe) { FrameType::KeyFrame } else { FrameType::Delta }),
        *final(force_keyframe) == false,
{
    let frame_type = if *force_keyframe {
        FrameType::KeyFrame
    } else {
        FrameType::Delta
    };
    *force_keyframe = false;
    EncodedFrame { data: Vec::new(), timestamp, frame_type, size: 0 }
}

/// The frame size of an optional configuration.
fn config_dimensions(config: &Option<EncoderConfig>) -> (r: Option<(u32, u32)>)
    ensures
        r == (match config {
            Some(c) => Some((c.width, c.height)),
            None => None::<(u32, u32)>,
        }),
{
    match config {
        Some(c) => Some((c.width, c.height)),
        None => None,
    }
}

impl VideoEncoder for NvencEncoder {
    fn init(&mut self, config: EncoderConfig) -> (r: Result<(), EncoderError>) {
        self.config = Some(config);
        Ok(())
    }

    fn encode(&mut self, frame_data: &[u8], timestamp: u64) -> (r: Result<EncodedFrame, EncoderError>) {
        Ok(stub_frame(&mut self.force_keyframe, timestamp))
    }

    fn request_keyframe(&mut self) {
        self.force_keyframe = true;
    }

    fn set_bitrate(&mut self, bitrate: u32) -> (r: Result<(), EncoderError>) {
        if let Some(c) = &mut self.config {
            c.bitrate = bitrate;
        }
        Ok(())
    }

    fn info(&self) -> &'static str {
        "NVENC (NVIDIA Hardware)"
    }

    fn get_dimensions(&self) -> Option<(u32, u32)> {
        config_dimensions(&self.config)
    }
}

impl VideoEncoder for VaapiEncoder {
    fn init(&mut self, config: EncoderConfig) -> (r: Result<(), EncoderError>) {
        self.config = Some(config);
        Ok(())
    }

    fn encode(&mut self, frame_data: &[u8], timestamp: u64) -> (r: Result<EncodedFrame, EncoderError>) {
        Ok(stub_frame(&mut self.force_keyframe, timestamp))
    }

    fn request_keyframe(&mut self) {
        self.force_keyframe = true;
    }

    fn set_bitrate(&mut self, bitrate: u32) -> (r: Result<(), EncoderError>) {
        if let Some(c) = &mut self.config {
            c.bitrate = bitrate;
        }
        Ok(())
    }

    fn info(&self) -> &'static str {
        "VAAPI (Linux Hardware)"
    }

    fn get_dimensions(&self) -> Option<(u32, u32)> {
        config_dimensions(&self.config)
    }
}

impl VideoEncoder for VideoToolboxEncoder {
    fn init(&mut self, config: EncoderConfig) -> (r: Result<(), EncoderError>) {
        self.config = Some(config);
        Ok(())
    }

    fn encode(&mut self, frame_data: &[u8], timestamp: u64) -> (r: Result<EncodedFrame, EncoderError>) {
        Ok(stub_frame(&mut self.force_keyframe, timestamp))
    }

    fn request_keyframe(&mut self) {
        self.force_keyframe = true;
    }

    fn set_bitrate(&mut self, bitrate: u32) -> (r: Result<(), EncoderError>) {
        if let Some(c) = &mut self.config {
            c.bitrate = bitrate;
        }
        Ok(())
    }

    fn info(&self) -> &'static str {
        "VideoToolbox (Hardware)"
    }

    fn get_dimensions(&self) -> Option<(u32, u32)> {
        config_dimensions(&self.config)
    }
}

/// The state and per-frame logic of the software H.264 encoder: the scaler
/// that brings frames within the encoder maximum, the effective
/// configuration, and the keyframe latch. The codec call itself sits
/// between `prepare` and `finish`.
pub struct SoftwareEncoderCore {
    pub config: Option<EncoderConfig>,
    pub scaler: Option<FrameScaler>,
    pub force_keyframe: bool,
    pub frame_count: u64,
}

impl SoftwareEncoderCore {
    /// Well-formed: configured and scaler present together, the scaler
    /// well-formed, and the configured size equal to the scaler's output.
    pub open spec fn wf(&self) -> bool {
        &&& (self.config is Some <==> self.scaler is Some)
        &&& (self.scaler matches Some(s) ==> s.wf() && self.config->0.width == s.dst_width
            && self.config->0.height == s.dst_height)
    }

    /// An encoder core that has not been initialised.
    pub fn new() -> (r: Self)
        ensures
            r.wf(),
            r.config is None,
            !r.force_keyframe,
            r.frame_count == 0,
    {
        SoftwareEncoderCore { config: None, scaler: None, force_keyframe: false, frame_count: 0 }
    }

    /// Configures the encoder. Frames larger than the encoder maximum are
    /// cropped, so the encoder always sees legal, even dimensions.
    pub fn init(&mut self, config: EncoderConfig)
        ensures
            final(self).wf(),
            final(self).scaler matches Some(s) && s.src_width == config.width && s.src_height
                == config.height && s.dst_width == crop_dim(config.width as int, OPENH264_MAX_WIDTH as int)
                && s.dst_height == crop_dim(config.height as int, OPENH264_MAX_HEIGHT as int),
            final(self).config == Some(
                EncoderConfig {
                    width: crop_dim(config.width as int, OPENH264_MAX_WIDTH as int) as u32,
                    height: crop_dim(config.height as int, OPENH264_MAX_HEIGHT as int) as u32,
                    ..config
                },
            ),
            final(self).force_keyframe == old(self).force_keyframe,
            final(self).frame_count == 0,
    {
        let scaler = FrameScaler::new(config.width, config.height);
        let scaled = EncoderConfig { width: scaler.dst_width, height: scaler.dst_height, ..config };
        self.scaler = Some(scaler);
        self.config = Some(scaled);
        self.frame_count = 0;
    }

    /// Scales a BGRA frame of the configured source size and converts it to
    /// planar YUV 4:2:0 at the encoded size; also reports and clears the
    /// keyframe latch.
    pub fn prepare(&mut self, frame_data: &[u8]) -> (r: Result<(Vec<u8>, bool), EncoderError>)
        requires
            old(self).wf(),
            old(self).scaler matches Some(s) ==> frame_data@.len() >= s.src_width * s.src_height * 4,
        ensures
            final(self).wf(),
            final(self).config == old(self).config,
            final(self).scaler == old(self).scaler,
            final(self).frame_count == old(self).frame_count,
            old(self).scaler is None ==> (r is Err && final(self).force_keyframe == old(self).force_keyframe),
            old(self).scaler matches Some(s) ==> (r matches Ok((yuv, force)) && force
                == old(self).force_keyframe && !final(self).force_keyframe && yuv@.len() == yuv420_len(
                s.dst_width as int,
                s.dst_height as int,
            ) && forall|i: int|
                0 <= i < yuv@.len() ==> #[trigger] yuv@[i] == yuv420_at(
                    s.scaled_bytes(frame_data@),
                    s.dst_width as int,
                    s.dst_height as int,
                    i,
                )),
    {
        match &self.scaler {
            None => Err(EncoderError::EncodeError("Encoder not initialized".to_string())),
            Some(scaler) => {
                let scaled = scaler.scale(frame_data);
                let (w, h) = (scaler.dst_width, scaler.dst_height);
                proof {
                    let s = scaler;
                    assert(s.dst_width * s.dst_height * 4 <= s.src_width * s.src_height * 4) by (nonlinear_arith)
                        requires s.dst_width <= s.src_width, s.dst_height <= s.src_height;
                    if s.mode == crate::scaler::AdaptMode::Passthrough {
                        assert(s.dst_width == s.src_width && s.dst_height == s.src_height);
                    }
                }
                let yuv = match &scaled {
                    std::borrow::Cow::Borrowed(b) => bgra_to_yuv420(b, w, h),
                    std::borrow::Cow::Owned(v) => bgra_to_yuv420(v.as_slice(), w, h),
                };
                let force = self.force_keyframe;
                self.force_keyframe = false;
                Ok((yuv, force))
            },
        }
    }

    /// Wraps the codec's output for one frame, classifying it by its NAL
    /// units.
    pub fn finish(&mut self, bitstream: Vec<u8>, timestamp: u64) -> (f: EncodedFrame)
        ensures
            f.data@ == bitstream@,
            f.size == bitstream@.len(),
            f.timestamp == timestamp,
            f.frame_type == frame_type_spec(bitstream@),
            final(self).config == old(self).config,
            final(self).scaler == old(self).scaler,
            final(self).force_keyframe == old(self).force_keyframe,
            final(self).frame_count == (if old(self).frame_count < u64::MAX {
                old(self).frame_count + 1
            } else {
                old(self).frame_count as int
            }),
    {
        let frame_type = frame_type_of(bitstream.as_slice());
        let size = bitstream.len();
        if self.frame_count < u64::MAX {
            self.frame_count = self.frame_count + 1;
        }
        EncodedFrame { data: bitstream, timestamp, frame_type, size }
    }

    /// Makes the next prepared frame a keyframe.
    pub fn request_keyframe(&mut self)
        ensures
            final(self).force_keyframe,
            final(self).config == old(self).config,
            final(self).scaler == old(self).scaler,
            final(self).frame_count == old(self).frame_count,
    {
        self.force_keyframe = true;
    }

    /// Records a new target bitrate (taking effect when the codec is
    /// re-created).
    pub fn set_bitrate(&mut self, bitrate: u32)
        requires
            old(self).wf(),
        ensures
            final(self).wf(),
            final(self).config == (match old(self).config {
                Some(c) => Some(EncoderConfig { bitrate, ..c }),
                None => None::<EncoderConfig>,
            }),
            final(self).scaler == old(self).scaler,
            final(self).force_keyframe == old(self).force_keyframe,
    {
        if let Some(c) = &mut self.config {
            c.bitrate = bitrate;
        }
    }

    /// The encoded frame size, once initialised.
    pub fn dimensions(&self) -> (r: Option<(u32, u32)>)
        ensures
            r == (match self.config {
                Some(c) => Some((c.width, c.height)),
                None => None::<(u32, u32)>,
            }),
    {
        config_dimensions(&self.config)
    }

    /// Name of the software implementation.
    pub fn info(&self) -> (r: &'static str)
        ensures
            r@ == "OpenH264 (Software)"@,
    {
        "OpenH264 (Software)"
    }
}

/// The encoder chosen for this machine.
pub enum EncoderBackend {
    Nvenc(NvencEncoder),
    Vaapi(VaapiEncoder),
    VideoToolbox(VideoToolboxEncoder),
    Software(SoftwareEncoderCore),
}

/// Tries the hardware encoders in order of preference and falls back to the
/// software encoder.
pub fn create_encoder() -> (r: Result<EncoderBackend, EncoderError>)
    ensures
        r matches Ok(EncoderBackend::Software(c)) && c.wf() && c.config is None && !c.force_keyframe,
{
    if let Ok(e) = VideoToolboxEncoder::new() {
        return Ok(EncoderBackend::VideoToolbox(e));
    }
    if let Ok(e) = NvencEncoder::new() {
        return Ok(EncoderBackend::Nvenc(e));
    }
    if let Ok(e) = VaapiEncoder::new() {
        return Ok(EncoderBackend::Vaapi(e));
    }
    Ok(EncoderBackend::Software(SoftwareEncoderCore::new()))
}

/// Hardware encoder families reachable through a codec library.
#[derive(Debug, Clone, Copy, PartialEq, Eq, Structural)]
pub enum HwEncoderType {
    Nvenc,
    VideoToolbox,
    Vaapi,
    Qsv,
    Libx264,
}

impl HwEncoderType {
    /// The codec library's name of this family's H.264 encoder.
    pub fn codec_name(&self) -> &'static str {
        match self {
            HwEncoderType::Nvenc => "h264_nvenc",
            HwEncoderType::VideoToolbox => "h264_videotoolbox",
            HwEncoderType::Vaapi => "h264_vaapi",
            HwEncoderType::Qsv => "h264_qsv",
            HwEncoderType::Libx264 => "libx264",
        }
    }
}

} // verus!
