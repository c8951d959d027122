//! H.264 decoding: decoded-frame types, planar YUV 4:2:0 to BGRA conversion,
//! the decoder capability set, the software decoder and the platform
//! decoder selection.

use crate::encoder::{clamp_byte, clamp_to_byte, floor_div_256};
use crate::scaler::{lemma_pixel_in_frame, lemma_split_index};
use openh264::decoder::Decoder;
use openh264::formats::YUVSource;
use vstd::prelude::*;

verus! {

/// Why a decoder could not be set up or could not decode.
#[derive(Debug)]
pub enum DecoderError {
    InitError(String),
    DecodeError(String),
    HardwareNotAvailable,
    InvalidData(String),
}

/// Pixel layout of decoded frames.
#[derive(Debug, Clone, Copy, PartialEq, Eq, Structural)]
pub enum OutputFormat {
    /// Packed BGRA, for direct rendering.
    BGRA,
    /// Planar Y, U, V, for conversion on the GPU.
    YUV420,
}

/// Decoder settings.
#[derive(Debug, Clone, Copy, PartialEq, Eq, Structural)]
pub struct DecoderConfig {
    pub width: u32,
    pub height: u32,
    pub output_format: OutputFormat,
}

impl Default for DecoderConfig {
    fn default() -> (r: Self)
        ensures
            r == (DecoderConfig { width: 1920, height: 1080, output_format: OutputFormat::BGRA }),
    {
        DecoderConfig { width: 1920, height: 1080, output_format: OutputFormat::BGRA }
    }
}

/// Where a decoded frame's pixels are.
#[derive(Debug)]
pub enum DecodedFrameData {
    /// In CPU memory; for YUV 4:2:0 with the Y, U, V plane strides.
    Cpu { data: Vec<u8>, strides: Option<[usize; 3]> },
    /// In a GPU texture.
    Gpu { texture_id: u64 },
}

/// A decoded picture.
#[derive(Debug)]
pub struct DecodedFrame {
    pub width: u32,
    pub height: u32,
    pub timestamp: u64,
    pub format: OutputFormat,
    pub data: DecodedFrameData,
}

impl DecodedFrame {
    /// A BGRA frame in CPU memory.
    pub fn bgra(width: u32, height: u32, timestamp: u64, data: Vec<u8>) -> (f: Self)
        ensures
            f.width == width,
            f.height == height,
            f.timestamp == timestamp,
            f.format == OutputFormat::BGRA,
            f.data matches DecodedFrameData::Cpu { data: d, strides: None } && d@ == data@,
    {
        DecodedFrame {
            width,
            height,
            timestamp,
            format: OutputFormat::BGRA,
            data: DecodedFrameData::Cpu { data, strides: None },
        }
    }

    /// A planar YUV 4:2:0 frame in CPU memory.
    pub fn yuv420(width: u32, height: u32, timestamp: u64, data: Vec<u8>, strides: [usize; 3]) -> (f: Self)
        ensures
            f.width == width,
            f.height == height,
            f.timestamp == timestamp,
            f.format == OutputFormat::YUV420,
            f.data matches DecodedFrameData::Cpu { data: d, strides: Some(s) } && d@ == data@ && s
                == strides,
    {
        DecodedFrame {
            width,
            height,
            timestamp,
            format: OutputFormat::YUV420,
            data: DecodedFrameData::Cpu { data, strides: Some(strides) },
        }
    }

    /// Whether the pixels are in CPU memory.
    pub fn is_cpu(&self) -> (r: bool)
        ensures
            r == (self.data is Cpu),
    {
        match &self.data {
            DecodedFrameData::Cpu { .. } => true,
            DecodedFrameData::Gpu { .. } => false,
        }
    }

    /// The pixels, when in CPU memory.
    pub fn cpu_data(&self) -> (r: Option<&[u8]>)
        ensures
            match self.data {
                DecodedFrameData::Cpu { data, .. } => r matches Some(d) && d@ == data@,
                DecodedFrameData::Gpu { .. } => r is None,
            },
    {
        match &self.data {
            DecodedFrameData::Cpu { data, .. } => Some(data.as_slice()),
            DecodedFrameData::Gpu { .. } => None,
        }
    }

    /// The plane strides, for YUV 4:2:0 frames in CPU memory.
    pub fn strides(&self) -> (r: Option<[usize; 3]>)
        ensures
            match self.data {
                DecodedFrameData::Cpu { strides, .. } => r == strides,
                DecodedFrameData::Gpu { .. } => r is None,
            },
    {
        match &self.data {
            DecodedFrameData::Cpu { strides, .. } => *strides,
            DecodedFrameData::Gpu { .. } => None,
        }
    }
}

/// BT.601 red of a YUV sample (`u`, `v` centred on zero).
pub open spec fn red_of(y: int, u: int, v: int) -> u8 {
    clamp_byte(y + (v * 359) / 256)
}

/// BT.601 green of a YUV sample.
pub open spec fn green_of(y: int, u: int, v: int) -> u8 {
    clamp_byte(y - (u * 88 + v * 183) / 256)
}

/// BT.601 blue of a YUV sample.
pub open spec fn blue_of(y: int, u: int, v: int) -> u8 {
    clamp_byte(y + (u * 454) / 256)
}

/// Byte `i` of the BGRA image of planar YUV 4:2:0 planes: pixel
/// `(x, y)` takes luma `(x, y)` and the chroma of its 2x2 block; alpha is
/// opaque.
pub open spec fn bgra_at(
    yp: Seq<u8>,
    up: Seq<u8>,
    vp: Seq<u8>,
    ys: int,
    us: int,
    vs: int,
    w: int,
    i: int,
) -> u8 {
    let p = i / 4;
    let c = i % 4;
    let x = p % w;
    let y = p / w;
    let lum = yp[y * ys + x] as int;
    let u = up[(y / 2) * us + x / 2] - 128;
    let v = vp[(y / 2) * vs + x / 2] - 128;
    if c == 0 {
        blue_of(lum, u, v)
    } else if c == 1 {
        green_of(lum, u, v)
    } else if c == 2 {
        red_of(lum, u, v)
    } else {
        255
    }
}

/// Whether planes with these strides and lengths cover a `w` by `h` image.
pub open spec fn planes_cover(yl: int, ul: int, vl: int, ys: int, us: int, vs: int, w: int, h: int) -> bool {
    &&& ys >= w
    &&& us >= (w + 1) / 2
    &&& vs >= (w + 1) / 2
    &&& yl >= h * ys
    &&& ul >= ((h + 1) / 2) * us
    &&& vl >= ((h + 1) / 2) * vs
}

proof fn lemma_plane_index(row: int, col: int, stride: int, rows: int)
    requires
        0 <= row < rows,
        0 <= col < stride,
    ensures
        0 <= row * stride + col < rows * stride,
{
    assert(0 <= row * stride + col < rows * stride) by (nonlinear_arith)
        requires
            0 <= row < rows,
            0 <= col < stride,
    ;
}

/// Converts planar YUV 4:2:0 to BGRA (BT.601).
pub fn yuv420_to_bgra(
    y_data: &[u8],
    u_data: &[u8],
    v_data: &[u8],
    y_stride: usize,
    u_stride: usize,
    v_stride: usize,
    width: u32,
    height: u32,
) -> (bgra: Vec<u8>)
    requires
        planes_cover(
            y_data@.len() as int,
            u_data@.len() as int,
            v_data@.len() as int,
            y_stride as int,
            u_stride as int,
            v_stride as int,
            width as int,
            height as int,
        ),
        width * height * 4 <= usize::MAX,
    ensures
        bgra@.len() == width * height * 4,
        forall|i: int|
            0 <= i < bgra@.len() ==> #[trigger] bgra@[i] == bgra_at(
                y_data@,
                u_data@,
                v_data@,
                y_stride as int,
                u_stride as int,
                v_stride as int,
                width as int,
                i,
            ),
{
    let w = width as usize;
    let h = height as usize;
    let ghost (ys, us, vs) = (y_stride as int, u_stride as int, v_stride as int);
    let yl = y_data.len();
    let ul = u_data.len();
    let vl = v_data.len();
    let mut out: Vec<u8> = Vec::new();
    let mut y: usize = 0;
    while y < h
        invariant
            planes_cover(y_data@.len() as int, u_data@.len() as int, v_data@.len() as int, ys, us, vs, w as int, h as int),
            ys == y_stride,
            y_data@.len() == yl,
            u_data@.len() == ul,
            v_data@.len() == vl,
            us == u_stride,
            vs == v_stride,
            w == width,
            h == height,
            w * h * 4 <= usize::MAX,
            y <= h,
            out@.len() == y * w * 4,
            forall|i: int| 0 <= i < out@.len() ==> #[trigger] out@[i] == bgra_at(y_data@, u_data@, v_data@, ys, us, vs, w as int, i),
        decreases h - y,
    {
        let mut x: usize = 0;
        while x < w
            invariant
                planes_cover(y_data@.len() as int, u_data@.len() as int, v_data@.len() as int, ys, us, vs, w as int, h as int),
                ys == y_stride,
                y_data@.len() == yl,
                u_data@.len() == ul,
                v_data@.len() == vl,
                us == u_stride,
                vs == v_stride,
                w == width,
                h == height,
                w * h * 4 <= usize::MAX,
                y < h,
                x <= w,
                out@.len() == (y * w + x) * 4,
                forall|i: int| 0 <= i < out@.len() ==> #[trigger] out@[i] == bgra_at(y_data@, u_data@, v_data@, ys, us, vs, w as int, i),
            decreases w - x,
        {
            proof {
                lemma_plane_index(y as int, x as int, ys, h as int);
                lemma_plane_index(y as int / 2, x as int / 2, us, (h as int + 1) / 2);
                lemma_plane_index(y as int / 2, x as int / 2, vs, (h as int + 1) / 2);
                lemma_pixel_in_frame(y as int, x as int, 3, w as int, h as int);
            }
            let lum = y_data[y * y_stride + x] as i32;
            let u = u_data[(y / 2) * u_stride + x / 2] as i32 - 128;
            let v = v_data[(y / 2) * v_stride + x / 2] as i32 - 128;
            let r = clamp_to_byte(lum + floor_div_256(v * 359));
            let g = clamp_to_byte(lum - floor_div_256(u * 88 + v * 183));
            let b = clamp_to_byte(lum + floor_div_256(u * 454));
            let ghost before = out@.len();
            proof {
                lemma_split_index(y as int, x as int, 0, w as int);
                lemma_split_index(y as int, x as int, 1, w as int);
                lemma_split_index(y as int, x as int, 2, w as int);
                lemma_split_index(y as int, x as int, 3, w as int);
            }
            out.push(b);
            out.push(g);
            out.push(r);
            out.push(255);
            x = x + 1;
        }
        proof {
            assert(out@.len() == (y + 1) * w * 4) by (nonlinear_arith)
                requires out@.len() == (y * w + w) * 4;
        }
        y = y + 1;
    }
    assert(out@.len() == width * height * 4) by (nonlinear_arith)
        requires out@.len() == y * w * 4, y == h, w == width, h == height;
    out
}

/// Byte `i` of `s`, or 128 (neutral chroma) past its end.
pub open spec fn byte_or_neutral(s: Seq<u8>, i: int) -> u8 {
    if 0 <= i < s.len() {
        s[i]
    } else {
        128
    }
}

/// Byte `i` of the planar YUV 4:2:0 image of an NV12 image `w` by `h`: the
/// luma plane unchanged, then the U and V samples taken from the
/// interleaved chroma plane (neutral where it is short).
pub open spec fn nv12_planar_at(s: Seq<u8>, w: int, h: int, i: int) -> u8 {
    let q = (w / 2) * (h / 2);
    if i < w * h {
        s[i]
    } else if i < w * h + q {
        byte_or_neutral(s, w * h + 2 * (i - w * h))
    } else {
        byte_or_neutral(s, w * h + 2 * (i - w * h - q) + 1)
    }
}

/// Deinterleaves NV12 into planar YUV 4:2:0; returns the bytes and the
/// plane strides.
pub fn nv12_to_yuv420p(nv12: &[u8], width: u32, height: u32) -> (r: (Vec<u8>, [usize; 3]))
    requires
        nv12@.len() >= width * height,
    ensures
        r.0@.len() == width * height + 2 * ((width / 2) * (height / 2)),
        forall|i: int| 0 <= i < r.0@.len() ==> #[trigger] r.0@[i] == nv12_planar_at(nv12@, width as int, height as int, i),
        r.1 == [width as usize, (width / 2) as usize, (width / 2) as usize],
{
    let n = nv12.len();
    let w = width as usize;
    let h = height as usize;
    assert(w * h <= n);
    let y_size = w * h;
    let cw = w / 2;
    let ch = h / 2;
    assert(cw * ch <= w * h) by (nonlinear_arith)
        requires cw == w / 2, ch == h / 2;
    let uv_size = cw * ch;
    let mut out: Vec<u8> = Vec::new();
    out.extend_from_slice(vstd::slice::slice_subrange(nv12, 0, y_size));
    let mut u: Vec<u8> = Vec::new();
    let mut v: Vec<u8> = Vec::new();
    let mut i: usize = 0;
    while i < uv_size
        invariant
            n == nv12@.len(),
            y_size == w * h,
            y_size <= n,
            uv_size <= y_size,
            i <= uv_size,
            u@.len() == i,
            v@.len() == i,
            forall|k: int| 0 <= k < i ==> #[trigger] u@[k] == byte_or_neutral(nv12@, y_size + 2 * k),
            forall|k: int| 0 <= k < i ==> #[trigger] v@[k] == byte_or_neutral(nv12@, y_size + 2 * k + 1),
        decreases uv_size - i,
    {
        let d = n - y_size;
        let a = if i < d - d / 2 {
            nv12[y_size + 2 * i]
        } else {
            128
        };
        let b = if i < d / 2 {
            nv12[y_size + 2 * i + 1]
        } else {
            128
        };
        u.push(a);
        v.push(b);
        i = i + 1;
    }
    let ghost y_part = out@;
    let ghost u_part = u@;
    let ghost v_part = v@;
    out.append(&mut u);
    out.append(&mut v);
    assert(out@ == y_part + u_part + v_part);
    assert forall|i: int| 0 <= i < out@.len() implies #[trigger] out@[i] == nv12_planar_at(nv12@, width as int, height as int, i) by {
        if i < y_size {
            assert(out@[i] == y_part[i]);
        } else if i < y_size + uv_size {
            assert(out@[i] == u_part[i - y_size]);
        } else {
            assert(out@[i] == v_part[i - y_size - uv_size]);
        }
    }
    (out, [w, cw, cw])
}

/// Byte `i` of the BGRA image of an NV12 image `w` by `h` (BT.601 with
/// studio-range luma; chroma past the end of the input is neutral).
pub open spec fn nv12_bgra_at(s: Seq<u8>, w: int, h: int, i: int) -> u8 {
    let p = i / 4;
    let c = i % 4;
    let col = p % w;
    let row = p / w;
    let y = s[row * w + col] as int;
    let uv = w * h + (row / 2) * w + (col / 2) * 2;
    let u = byte_or_neutral(s, uv) - 128;
    let v = byte_or_neutral(s, uv + 1) - 128;
    if c == 0 {
        clamp_byte((298 * (y - 16) + 516 * u + 128) / 256)
    } else if c == 1 {
        clamp_byte((298 * (y - 16) - 100 * u - 208 * v + 128) / 256)
    } else if c == 2 {
        clamp_byte((298 * (y - 16) + 409 * v + 128) / 256)
    } else {
        255
    }
}

fn chroma_or_neutral(s: &[u8], i: usize) -> (r: u8)
    ensures
        r == byte_or_neutral(s@, i as int),
{
    if i < s.len() {
        s[i]
    } else {
        128
    }
}

/// Converts NV12 to BGRA.
pub fn nv12_to_bgra(nv12: &[u8], width: u32, height: u32) -> (bgra: Vec<u8>)
    requires
        nv12@.len() >= width * height,
        width * height * 4 <= usize::MAX,
    ensures
        bgra@.len() == width * height * 4,
        forall|i: int| 0 <= i < bgra@.len() ==> #[trigger] bgra@[i] == nv12_bgra_at(nv12@, width as int, height as int, i),
{
    let n = nv12.len();
    let w = width as usize;
    let h = height as usize;
    let y_size = w * h;
    let mut out: Vec<u8> = Vec::new();
    let mut row: usize = 0;
    while row < h
        invariant
            n == nv12@.len(),
            w == width,
            h == height,
            y_size == w * h,
            y_size <= n,
            w * h * 4 <= usize::MAX,
            row <= h,
            out@.len() == row * w * 4,
            forall|i: int| 0 <= i < out@.len() ==> #[trigger] out@[i] == nv12_bgra_at(nv12@, w as int, h as int, i),
        decreases h - row,
    {
        let mut col: usize = 0;
        while col < w
            invariant
                n == nv12@.len(),
                w == width,
                h == height,
                y_size == w * h,
                y_size <= n,
                w * h * 4 <= usize::MAX,
                row < h,
                col <= w,
                out@.len() == (row * w + col) * 4,
                forall|i: int| 0 <= i < out@.len() ==> #[trigger] out@[i] == nv12_bgra_at(nv12@, w as int, h as int, i),
            decreases w - col,
        {
            proof {
                lemma_pixel_in_frame(row as int, col as int, 3, w as int, h as int);
                assert(row * w + col < w * h) by (nonlinear_arith)
                    requires row < h, col < w;
                assert((row / 2) * w + (col / 2) * 2 <= row * w + col) by (nonlinear_arith)
                    requires row >= 0, col >= 0, w >= 0;
                lemma_split_index(row as int, col as int, 0, w as int);
                lemma_split_index(row as int, col as int, 1, w as int);
                lemma_split_index(row as int, col as int, 2, w as int);
                lemma_split_index(row as int, col as int, 3, w as int);
            }
            let y = nv12[row * w + col] as i32;
            let uv = y_size + (row / 2) * w + (col / 2) * 2;
            let u = chroma_or_neutral(nv12, uv) as i32 - 128;
            let v = if uv < n { chroma_or_neutral(nv12, uv + 1) as i32 - 128 } else { 0 };
            proof {
                if uv >= n {
                    assert(byte_or_neutral(nv12@, uv + 1) == 128);
                }
            }
            let c = 298 * (y - 16);
            let b = clamp_to_byte(floor_div_256(c + 516 * u + 128));
            let g = clamp_to_byte(floor_div_256(c - 100 * u - 208 * v + 128));
            let r = clamp_to_byte(floor_div_256(c + 409 * v + 128));
            out.push(b);
            out.push(g);
            out.push(r);
            out.push(255);
            col = col + 1;
        }
        proof {
            assert(out@.len() == (row + 1) * w * 4) by (nonlinear_arith)
                requires out@.len() == (row * w + w) * 4;
        }
        row = row + 1;
    }
    assert(out@.len() == width * height * 4) by (nonlinear_arith)
        requires out@.len() == row * w * 4, row == h, w == width, h == height;
    out
}

/// Whether `frame_from_planes` accepts planes for the given output.
pub open spec fn planes_usable(p: DecodedPlanes, format: OutputFormat) -> bool {
    &&& p.width <= u32::MAX
    &&& p.height <= u32::MAX
    &&& match format {
        OutputFormat::BGRA => planes_cover(
            p.y@.len() as int,
            p.u@.len() as int,
            p.v@.len() as int,
            p.y_stride as int,
            p.uv_stride as int,
            p.uv_stride as int,
            p.width as int,
            p.height as int,
        ) && p.width * p.height * 4 <= usize::MAX,
        OutputFormat::YUV420 => p.y@.len() >= p.y_stride * p.height && p.u@.len() >= p.uv_stride * ((
        p.height + 1) / 2) && p.v@.len() >= p.uv_stride * ((p.height + 1) / 2),
    }
}

/// The planes of one decoded picture, copied out of the codec.
pub struct DecodedPlanes {
    pub width: usize,
    pub height: usize,
    pub y: Vec<u8>,
    pub u: Vec<u8>,
    pub v: Vec<u8>,
    pub y_stride: usize,
    pub uv_stride: usize,
}

/// Builds the output frame of a decoded picture: BGRA converted from the
/// planes, or the three planes packed one after another (each chroma plane
/// `(height + 1) / 2` rows). Planes too small for the picture are invalid
/// data.
pub fn frame_from_planes(p: &DecodedPlanes, format: OutputFormat, timestamp: u64) -> (r: Result<DecodedFrame, DecoderError>)
    ensures
        !planes_usable(*p, format) ==> r matches Err(DecoderError::InvalidData(_)),
        planes_usable(*p, format) ==> (r matches Ok(f) && f.width == p.width && f.height == p.height
            && f.timestamp == timestamp && f.format == format && match format {
            OutputFormat::BGRA => f.data matches DecodedFrameData::Cpu { data, strides: None }
                && data@.len() == p.width * p.height * 4 && forall|i: int|
                0 <= i < data@.len() ==> #[trigger] data@[i] == bgra_at(
                    p.y@,
                    p.u@,
                    p.v@,
                    p.y_stride as int,
                    p.uv_stride as int,
                    p.uv_stride as int,
                    p.width as int,
                    i,
                ),
            OutputFormat::YUV420 => f.data matches DecodedFrameData::Cpu { data, strides: Some(st) }
                && st == [p.y_stride, p.uv_stride, p.uv_stride] && data@ == p.y@.subrange(
                0,
                p.y_stride * p.height,
            ) + p.u@.subrange(0, p.uv_stride * ((p.height + 1) / 2)) + p.v@.subrange(
                0,
                p.uv_stride * ((p.height + 1) / 2),
            ),
        }),
{
    if p.width > u32::MAX as usize || p.height > u32::MAX as usize {
        return Err(DecoderError::InvalidData("frame size out of range".to_string()));
    }
    let w = p.width as u32;
    let h = p.height as u32;
    let yl = p.y.len();
    let ul = p.u.len();
    let vl = p.v.len();
    match format {
        OutputFormat::BGRA => {
            let cw = (p.width - p.width / 2) as usize;
            let ch = (p.height - p.height / 2) as usize;
            assert(cw == (p.width + 1) / 2 && ch == (p.height + 1) / 2);
            if p.y_stride < p.width || p.uv_stride < cw {
                return Err(DecoderError::InvalidData("planes smaller than the picture".to_string()));
            }
            if (p.height > 0 && yl / p.height < p.y_stride) || (ch > 0 && (ul / ch < p.uv_stride
                || vl / ch < p.uv_stride)) {
                proof {
                    if p.height > 0 && yl / p.height < p.y_stride {
                        assert(yl < p.height * p.y_stride) by (nonlinear_arith)
                            requires yl / p.height < p.y_stride, p.height > 0;
                    } else {
                        assert(ul < ch * p.uv_stride || vl < ch * p.uv_stride) by (nonlinear_arith)
                            requires ch > 0, ul / ch < p.uv_stride || vl / ch < p.uv_stride;
                    }
                }
                return Err(DecoderError::InvalidData("planes smaller than the picture".to_string()));
            }
            proof {
                if p.height > 0 {
                    assert(yl >= p.height * p.y_stride) by (nonlinear_arith)
                        requires yl / p.height >= p.y_stride, p.height > 0;
                } else {
                    assert(p.height * p.y_stride == 0);
                }
                if ch > 0 {
                    assert(ul >= ch * p.uv_stride && vl >= ch * p.uv_stride) by (nonlinear_arith)
                        requires ul / ch >= p.uv_stride, vl / ch >= p.uv_stride, ch > 0;
                } else {
                    assert(ch * p.uv_stride == 0);
                }
            }
            if p.width > 0 && p.height > 0 && (usize::MAX / 4) / p.width < p.height {
                assert(p.width * p.height * 4 > usize::MAX) by (nonlinear_arith)
                    requires (usize::MAX / 4) / p.width < p.height, p.width > 0;
                return Err(DecoderError::InvalidData("frame size out of range".to_string()));
            }
            proof {
                if p.width > 0 && p.height > 0 {
                    assert(p.width * p.height * 4 <= usize::MAX) by (nonlinear_arith)
                        requires (usize::MAX / 4) / p.width >= p.height, p.width > 0;
                } else {
                    assert(p.width * p.height == 0) by (nonlinear_arith)
                        requires p.width == 0 || p.height == 0;
                }
            }
            let data = yuv420_to_bgra(
                p.y.as_slice(),
                p.u.as_slice(),
                p.v.as_slice(),
                p.y_stride,
                p.uv_stride,
                p.uv_stride,
                w,
                h,
            );
            Ok(DecodedFrame::bgra(w, h, timestamp, data))
        },
        OutputFormat::YUV420 => {
            let ch = (p.height - p.height / 2) as usize;
            if (p.height > 0 && yl / p.height < p.y_stride) || (ch > 0 && (ul / ch < p.uv_stride
                || vl / ch < p.uv_stride)) {
                proof {
                    if p.height > 0 && yl / p.height < p.y_stride {
                        assert(yl < p.y_stride * p.height) by (nonlinear_arith)
                            requires yl / p.height < p.y_stride, p.height > 0;
                    } else {
                        assert(ul < p.uv_stride * ch || vl < p.uv_stride * ch) by (nonlinear_arith)
                            requires ch > 0, ul / ch < p.uv_stride || vl / ch < p.uv_stride;
                    }
                }
                return Err(DecoderError::InvalidData("planes smaller than the picture".to_string()));
            }
            proof {
                if p.height > 0 {
                    assert(yl >= p.y_stride * p.height) by (nonlinear_arith)
                        requires yl / p.height >= p.y_stride, p.height > 0;
                }
                if ch > 0 {
                    assert(ul >= p.uv_stride * ch && vl >= p.uv_stride * ch) by (nonlinear_arith)
                        requires ul / ch >= p.uv_stride, vl / ch >= p.uv_stride, ch > 0;
                }
                assert(p.y_stride * p.height <= yl) by (nonlinear_arith)
                    requires p.height == 0 ==> p.y_stride * p.height == 0, p.height > 0 ==> yl >= p.y_stride * p.height;
            }
            let y_size = p.y_stride * p.height;
            let uv_size = p.uv_stride * ch;
            let mut data: Vec<u8> = Vec::new();
            data.extend_from_slice(vstd::slice::slice_subrange(p.y.as_slice(), 0, y_size));
            data.extend_from_slice(vstd::slice::slice_subrange(p.u.as_slice(), 0, uv_size));
            data.extend_from_slice(vstd::slice::slice_subrange(p.v.as_slice(), 0, uv_size));
            assert(data@ =~= p.y@.subrange(0, p.y_stride * p.height) + p.u@.subrange(
                0,
                p.uv_stride * ((p.height + 1) / 2),
            ) + p.v@.subrange(0, p.uv_stride * ((p.height + 1) / 2)));
            Ok(DecodedFrame::yuv420(w, h, timestamp, data, [p.y_stride, p.uv_stride, p.uv_stride]))
        },
    }
}

/// The decoder capability set shared by every backend.
pub trait VideoDecoder {
    /// The configuration in force, once initialised.
    spec fn configured(&self) -> Option<DecoderConfig>;

    /// Prepares the decoder for a stream of the configured size and output.
    /// On success the configuration is in force; setting up the codec may
    /// fail, as an initialisation error.
    fn init(&mut self, config: DecoderConfig) -> (r: Result<(), DecoderError>)
        ensures
            r is Ok ==> final(self).configured() == Some(config),
            r is Err ==> (r matches Err(DecoderError::InitError(_))),
    ;

    /// Decodes one access unit; `None` while the decoder buffers. Before
    /// initialisation it fails; a picture carries the given timestamp and
    /// the configured output format.
    fn decode(&mut self, data: &[u8], timestamp: u64) -> (r: Result<Option<DecodedFrame>, DecoderError>)
        ensures
            final(self).configured() == old(self).configured(),
            old(self).configured() is None ==> (r matches Err(DecoderError::DecodeError(_))),
            r matches Ok(Some(f)) ==> f.timestamp == timestamp && old(self).configured() is Some
                && f.format == old(self).configured()->0.output_format,
    ;

    /// Drains buffered pictures; these decoders output every picture at
    /// once, so nothing is buffered.
    fn flush(&mut self) -> (r: Result<Vec<DecodedFrame>, DecoderError>)
        ensures
            r matches Ok(v) && v@.len() == 0,
    ;

    /// A name identifying the implementation.
    fn info(&self) -> &'static str;
}

/// Windows DXVA2 hardware decoder; not available in this build.
pub struct DxvaDecoder {
    config: Option<DecoderConfig>,
}

/// Linux VA-API hardware decoder; not available in this build.
pub struct VaapiDecoder {
    config: Option<DecoderConfig>,
}

/// macOS VideoToolbox hardware decoder; not available in this build.
pub struct VideoToolboxDecoder {
    config: Option<DecoderConfig>,
}

impl DxvaDecoder {
    /// Always fails: the hardware path is not implemented.
    pub fn new() -> (r: Result<Self, DecoderError>)
        ensures
            r matches Err(DecoderError::HardwareNotAvailable),
    {
        Err(DecoderError::HardwareNotAvailable)
    }
}

impl VaapiDecoder {
    /// Always fails: the hardware path is not implemented.
    pub fn new() -> (r: Result<Self, DecoderError>)
        ensures
            r matches Err(DecoderError::HardwareNotAvailable),
    {
        Err(DecoderError::HardwareNotAvailable)
    }
}

impl VideoToolboxDecoder {
    /// Always fails: the hardware path is not implemented.
    pub fn new() -> (r: Result<Self, DecoderError>)
        ensures
            r matches Err(DecoderError::HardwareNotAvailable),
    {
        Err(DecoderError::HardwareNotAvailable)
    }
}

/// Output of a hardware stub: an empty frame of the configured size and
/// format.
fn stub_decode(config: &Option<DecoderConfig>, timestamp: u64) -> (r: Result<Option<DecodedFrame>, DecoderError>)
    ensures
        config is None ==> r matches Err(DecoderError::DecodeError(_)),
        config matches Some(c) ==> (r matches Ok(Some(f)) && f.timestamp == timestamp && f.width
            == c.width && f.height == c.height && f.format == c.output_format),
{
    match config {
        Some(c) => Ok(
            Some(
                DecodedFrame {
                    width: c.width,
                    height: c.height,
                    timestamp,
                    format: c.output_format,
                    data: DecodedFrameData::Cpu { data: Vec::new(), strides: None },
                },
            ),
        ),
        None => Err(DecoderError::DecodeError("Decoder not initialized".to_string())),
    }
}

impl VideoDecoder for DxvaDecoder {
    closed spec fn configured(&self) -> Option<DecoderConfig> {
        self.config
    }

    fn init(&mut self, config: DecoderConfig) -> (r: Result<(), DecoderError>) {
        self.config = Some(config);
        Ok(())
    }

    fn decode(&mut self, data: &[u8], timestamp: u64) -> (r: Result<Option<DecodedFrame>, DecoderError>) {
        stub_decode(&self.config, timestamp)
    }

    fn flush(&mut self) -> (r: Result<Vec<DecodedFrame>, DecoderError>) {
        Ok(Vec::new())
    }

    fn info(&self) -> &'static str {
        "DXVA2 (Hardware)"
    }
}

impl VideoDecoder for VaapiDecoder {
    closed spec fn configured(&self) -> Option<DecoderConfig> {
        self.config
    }

    fn init(&mut self, config: DecoderConfig) -> (r: Result<(), DecoderError>) {
        self.config = Some(config);
        Ok(())
    }

    fn decode(&mut self, data: &[u8], timestamp: u64) -> (r: Result<Option<DecodedFrame>, DecoderError>) {
        stub_decode(&self.config, timestamp)
    }

    fn flush(&mut self) -> (r: Result<Vec<DecodedFrame>, DecoderError>) {
        Ok(Vec::new())
    }

    fn info(&self) -> &'static str {
        "VAAPI (Hardware)"
    }
}

impl VideoDecoder for VideoToolboxDecoder {
    closed spec fn configured(&self) -> Option<DecoderConfig> {
        self.config
    }

    fn init(&mut self, config: DecoderConfig) -> (r: Result<(), DecoderError>) {
        self.config = Some(config);
        Ok(())
    }

    fn decode(&mut self, data: &[u8], timestamp: u64) -> (r: Result<Option<DecodedFrame>, DecoderError>) {
        stub_decode(&self.config, timestamp)
    }

    fn flush(&mut self) -> (r: Result<Vec<DecodedFrame>, DecoderError>) {
        Ok(Vec::new())
    }

    fn info(&self) -> &'static str {
        "VideoToolbox (Hardware)"
    }
}

#[verifier::external_type_specification]
#[verifier::external_body]
pub struct ExH264Decoder(Decoder);

/// Relies on openh264's `Decoder::new`, which sets up the bundled software
/// decoder; its error is kept as text.
#[verifier::external_body]
fn h264_decoder_new() -> (r: Result<Decoder, String>) {
    Decoder::new().map_err(|e| e.to_string())
}

/// Relies on openh264's `Decoder::decode`: the latest complete picture, if
/// any, copied out. Its luma plane is `height * luma stride` bytes and each
/// chroma plane `height * chroma stride / 2` bytes, the two chroma planes
/// sharing one stride.
#[verifier::external_body]
fn h264_decode(decoder: &mut Decoder, packet: &[u8]) -> (r: Result<Option<DecodedPlanes>, String>)
    ensures
        r matches Ok(Some(p)) ==> p.y@.len() == p.height * p.y_stride && p.u@.len() == p.height
            * p.uv_stride / 2 && p.v@.len() == p.height * p.uv_stride / 2,
{
    match decoder.decode(packet) {
        Ok(Some(yuv)) => {
            let (width, height) = yuv.dimensions();
            let (y_stride, uv_stride, _) = yuv.strides();
            let (y, u, v) = (yuv.y().to_vec(), yuv.u().to_vec(), yuv.v().to_vec());
            Ok(Some(DecodedPlanes { width, height, y, u, v, y_stride, uv_stride }))
        },
        Ok(None) => Ok(None),
        Err(e) => Err(e.to_string()),
    }
}

/// The bundled software H.264 decoder.
pub struct SoftwareDecoder {
    config: Option<DecoderConfig>,
    decoder: Option<Decoder>,
    frame_count: u64,
}

impl SoftwareDecoder {
    /// An uninitialised software decoder.
    pub fn new() -> (r: Result<Self, DecoderError>)
        ensures
            r matches Ok(d) && d.configured() is None,
    {
        Ok(SoftwareDecoder { config: None, decoder: None, frame_count: 0 })
    }
}

impl VideoDecoder for SoftwareDecoder {
    closed spec fn configured(&self) -> Option<DecoderConfig> {
        if self.decoder is Some {
            self.config
        } else {
            None
        }
    }

    fn init(&mut self, config: DecoderConfig) -> (r: Result<(), DecoderError>) {
        match h264_decoder_new() {
            Ok(d) => {
                self.decoder = Some(d);
                self.config = Some(config);
                self.frame_count = 0;
                Ok(())
            },
            Err(msg) => Err(DecoderError::InitError(msg)),
        }
    }

    fn decode(&mut self, data: &[u8], timestamp: u64) -> (r: Result<Option<DecodedFrame>, DecoderError>) {
        let format = match &self.config {
            Some(c) => c.output_format,
            None => return Err(DecoderError::DecodeError("Decoder not initialized".to_string())),
        };
        let planes = match &mut self.decoder {
            Some(d) => h264_decode(d, data),
            None => return Err(DecoderError::DecodeError("Decoder not initialized".to_string())),
        };
        match planes {
            Err(msg) => Err(DecoderError::DecodeError(msg)),
            Ok(None) => Ok(None),
            Ok(Some(p)) => {
                if self.frame_count < u64::MAX {
                    self.frame_count = self.frame_count + 1;
                }
                match frame_from_planes(&p, format, timestamp) {
                    Ok(f) => Ok(Some(f)),
                    Err(e) => Err(e),
                }
            },
        }
    }

    fn flush(&mut self) -> (r: Result<Vec<DecodedFrame>, DecoderError>) {
        Ok(Vec::new())
    }

    fn info(&self) -> &'static str {
        "OpenH264 (Software)"
    }
}

/// The decoder chosen for this machine.
pub enum DecoderBackend {
    Dxva(DxvaDecoder),
    Vaapi(VaapiDecoder),
    VideoToolbox(VideoToolboxDecoder),
    Software(SoftwareDecoder),
}

/// Tries the hardware decoders in order of preference and falls back to the
/// software decoder.
pub fn create_decoder() -> (r: Result<DecoderBackend, DecoderError>)
    ensures
        r matches Ok(DecoderBackend::Software(d)) && d.configured() is None,
{
    if let Ok(d) = VideoToolboxDecoder::new() {
        return Ok(DecoderBackend::VideoToolbox(d));
    }
    if let Ok(d) = DxvaDecoder::new() {
        return Ok(DecoderBackend::Dxva(d));
    }
    if let Ok(d) = VaapiDecoder::new() {
        return Ok(DecoderBackend::Vaapi(d));
    }
    match SoftwareDecoder::new() {
        Ok(d) => Ok(DecoderBackend::Software(d)),
        Err(e) => Err(e),
    }
}

} // verus!
