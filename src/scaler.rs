//! Fits BGRA frames into encoder-legal, even dimensions by cropping or by
//! nearest-neighbour downscaling.

use vstd::arithmetic::div_mod::{lemma_fundamental_div_mod, lemma_fundamental_div_mod_converse};
use vstd::prelude::*;
use vstd::slice::slice_subrange;

verus! {

/// Largest frame width the H.264 encoder accepts.
pub const OPENH264_MAX_WIDTH: u32 = 3840;

/// Largest frame height the H.264 encoder accepts.
pub const OPENH264_MAX_HEIGHT: u32 = 2160;

/// How a frame is adapted to the destination size.
#[derive(Debug, Clone, Copy, PartialEq, Eq, Structural)]
pub enum AdaptMode {
    /// The frame is passed through unchanged.
    Passthrough,
    /// Rows are dropped from the bottom (width unchanged).
    CropHeight,
    /// Columns are dropped from the right (height unchanged).
    CropWidth,
    /// Rows and columns are dropped.
    CropBoth,
    /// Nearest-neighbour resample.
    Downscale,
}

/// Adapts BGRA frames of one source size to one destination size.
pub struct FrameScaler {
    pub src_width: u32,
    pub src_height: u32,
    pub dst_width: u32,
    pub dst_height: u32,
    pub needs_scaling: bool,
    pub mode: AdaptMode,
}

/// `x` rounded down to an even number.
pub open spec fn even_floor(x: int) -> int {
    x - x % 2
}

/// One destination dimension when cropping: the encoder maximum if the source
/// exceeds it, else the source rounded down to even.
pub open spec fn crop_dim(src: int, max: int) -> int {
    if src > max {
        max
    } else {
        even_floor(src)
    }
}

/// The crop mode that turns `(sw, sh)` into `(dw, dh)`.
pub open spec fn crop_mode(sw: int, sh: int, dw: int, dh: int) -> AdaptMode {
    if dw == sw && dh == sh {
        AdaptMode::Passthrough
    } else if dw == sw {
        AdaptMode::CropHeight
    } else if dh == sh {
        AdaptMode::CropWidth
    } else {
        AdaptMode::CropBoth
    }
}

/// Whatever the source size, cropping gives even dimensions within the
/// encoder maximum and within the source.
pub proof fn lemma_crop_dims_legal(w: u32, h: u32)
    ensures
        crop_dim(w as int, OPENH264_MAX_WIDTH as int) % 2 == 0,
        crop_dim(h as int, OPENH264_MAX_HEIGHT as int) % 2 == 0,
        crop_dim(w as int, OPENH264_MAX_WIDTH as int) <= OPENH264_MAX_WIDTH,
        crop_dim(h as int, OPENH264_MAX_HEIGHT as int) <= OPENH264_MAX_HEIGHT,
        crop_dim(w as int, OPENH264_MAX_WIDTH as int) <= w,
        crop_dim(h as int, OPENH264_MAX_HEIGHT as int) <= h,
{
}

/// The smaller of two integers.
pub open spec fn min_int(a: int, b: int) -> int {
    if a <= b {
        a
    } else {
        b
    }
}

/// Destination size when fitting `(sw, sh)` inside the box `(tw, th)`: the
/// largest size of the source's aspect ratio that fits inside the box, the
/// source and the encoder maximum, rounded down to even dimensions.
pub open spec fn fit_dims(sw: int, sh: int, tw: int, th: int) -> (int, int) {
    let mw = min_int(min_int(tw, sw), OPENH264_MAX_WIDTH as int);
    let mh = min_int(min_int(th, sh), OPENH264_MAX_HEIGHT as int);
    if sw == 0 || sh == 0 {
        (0, 0)
    } else if mw * sh <= mh * sw {
        (even_floor(mw), even_floor(sh * mw / sw))
    } else {
        (even_floor(sw * mh / sh), even_floor(mh))
    }
}

/// Whether `(dw, dh)` keeps the aspect ratio of `(sw, sh)` up to the rounding
/// of each destination dimension to an even integer.
pub open spec fn keeps_aspect(sw: int, sh: int, dw: int, dh: int) -> bool {
    &&& dw * sh <= sw * (dh + 2)
    &&& dh * sw <= sh * (dw + 2)
}

proof fn lemma_fit_side(sa: int, sb: int, ma: int, mb: int)
    requires
        0 < sa,
        0 <= sb,
        0 <= ma <= sa,
        0 <= mb <= sb,
        ma * sb <= mb * sa,
    ensures
        0 <= sb * ma / sa <= mb,
        even_floor(ma) * sb <= sa * (even_floor(sb * ma / sa) + 2),
        even_floor(sb * ma / sa) * sa <= sb * (even_floor(ma) + 2),
{
    let f = sb * ma / sa;
    assert(0 <= sb * ma) by (nonlinear_arith)
        requires
            0 <= sb,
            0 <= ma,
    ;
    assert(f * sa <= sb * ma && sb * ma < (f + 1) * sa) by (nonlinear_arith)
        requires
            0 < sa,
            0 <= sb * ma,
            f == sb * ma / sa,
    ;
    assert(0 <= f) by (nonlinear_arith)
        requires
            0 < sa,
            0 <= sb * ma,
            f == sb * ma / sa,
    ;
    assert(f <= mb) by (nonlinear_arith)
        requires
            0 < sa,
            f * sa <= sb * ma,
            ma * sb <= mb * sa,
    ;
    let ew = even_floor(ma);
    let eh = even_floor(f);
    assert(ma - 1 <= ew <= ma);
    assert(f - 1 <= eh <= f);
    assert(ew * sb <= sa * (eh + 2)) by (nonlinear_arith)
        requires
            0 <= sb,
            0 < sa,
            ew <= ma,
            f - 1 <= eh,
            sb * ma < (f + 1) * sa,
    ;
    assert(eh * sa <= sb * (ew + 2)) by (nonlinear_arith)
        requires
            0 <= sb,
            0 < sa,
            eh <= f,
            ma - 1 <= ew,
            f * sa <= sb * ma,
    ;
}

/// Bounds of the fitted size: even, within the box, the source and the
/// encoder maximum, and of the source's aspect ratio.
pub proof fn lemma_fit_dims_bounds(sw: int, sh: int, tw: int, th: int)
    requires
        0 <= sw,
        0 <= sh,
        0 <= tw,
        0 <= th,
    ensures
        ({
            let (dw, dh) = fit_dims(sw, sh, tw, th);
            &&& 0 <= dw && dw % 2 == 0 && dw <= tw && dw <= sw && dw <= OPENH264_MAX_WIDTH
            &&& 0 <= dh && dh % 2 == 0 && dh <= th && dh <= sh && dh <= OPENH264_MAX_HEIGHT
            &&& keeps_aspect(sw, sh, dw, dh)
        }),
{
    let mw = min_int(min_int(tw, sw), OPENH264_MAX_WIDTH as int);
    let mh = min_int(min_int(th, sh), OPENH264_MAX_HEIGHT as int);
    if sw == 0 || sh == 0 {
    } else if mw * sh <= mh * sw {
        lemma_fit_side(sw, sh, mw, mh);
    } else {
        lemma_fit_side(sh, sw, mh, mw);
    }
}

/// Byte `i` of a BGRA frame `w` pixels wide splits into row, column and
/// channel.
pub proof fn lemma_split_index(y: int, x: int, c: int, w: int)
    requires
        0 <= y,
        0 <= x < w,
        0 <= c < 4,
    ensures
        ({
            let i = (y * w + x) * 4 + c;
            &&& i / 4 == y * w + x
            &&& i % 4 == c
            &&& (i / 4) % w == x
            &&& (i / 4) / w == y
        }),
{
    lemma_fundamental_div_mod_converse((y * w + x) * 4 + c, 4, y * w + x, c);
    lemma_fundamental_div_mod_converse(y * w + x, w, y, x);
}

/// A pixel inside a `w` by `h` frame has its four bytes inside the frame.
pub proof fn lemma_pixel_in_frame(y: int, x: int, c: int, w: int, h: int)
    requires
        0 <= y < h,
        0 <= x < w,
        0 <= c < 4,
    ensures
        0 <= (y * w + x) * 4 + c < w * h * 4,
{
    assert(0 <= y * w + x < w * h) by (nonlinear_arith)
        requires
            0 <= y < h,
            0 <= x < w,
    ;
}

/// `a * b / d < b` when `a < d`.
proof fn lemma_sample_below(a: int, b: int, d: int)
    requires
        0 <= a < d,
        0 < b,
    ensures
        0 <= a * b / d < b,
{
    assert(0 <= a * b) by (nonlinear_arith)
        requires
            0 <= a,
            0 < b,
    ;
    assert(a * b < d * b) by (nonlinear_arith)
        requires
            0 <= a < d,
            0 < b,
    ;
    assert(a * b / d < b) by (nonlinear_arith)
        requires
            0 <= a * b < d * b,
            0 < d,
    ;
    assert(0 <= a * b / d) by (nonlinear_arith)
        requires
            0 <= a * b,
            0 < d,
    ;
}

impl FrameScaler {
    /// Length in bytes of a destination frame.
    pub open spec fn dst_len(&self) -> int {
        self.dst_width * self.dst_height * 4
    }

    /// Source column sampled for destination column `x`.
    pub open spec fn sample_x(&self, x: int) -> int {
        if self.mode == AdaptMode::Downscale {
            x * self.src_width / self.dst_width as int
        } else {
            x
        }
    }

    /// Source row sampled for destination row `y`.
    pub open spec fn sample_y(&self, y: int) -> int {
        if self.mode == AdaptMode::Downscale {
            y * self.src_height / self.dst_height as int
        } else {
            y
        }
    }

    /// Index in the source frame of destination byte `i`.
    pub open spec fn source_index(&self, i: int) -> int {
        let p = i / 4;
        let x = p % self.dst_width as int;
        let y = p / self.dst_width as int;
        (self.sample_y(y) * self.src_width + self.sample_x(x)) * 4 + i % 4
    }

    /// The destination frame for the source frame `src`: `src` itself when
    /// nothing is adapted, else each destination pixel copied from its sampled
    /// source pixel.
    pub open spec fn scaled_bytes(&self, src: Seq<u8>) -> Seq<u8> {
        if self.mode == AdaptMode::Passthrough {
            src
        } else {
            Seq::new(self.dst_len() as nat, |i: int| src[self.source_index(i)])
        }
    }

    /// Well-formed: destination even, within the encoder maximum and within
    /// the source, and the mode agrees with the sizes.
    pub open spec fn wf(&self) -> bool {
        &&& self.dst_width % 2 == 0
        &&& self.dst_height % 2 == 0
        &&& self.dst_width <= OPENH264_MAX_WIDTH
        &&& self.dst_height <= OPENH264_MAX_HEIGHT
        &&& self.dst_width <= self.src_width
        &&& self.dst_height <= self.src_height
        &&& self.needs_scaling == (self.dst_width != self.src_width || self.dst_height
            != self.src_height)
        &&& (self.mode == AdaptMode::Passthrough <==> !self.needs_scaling)
        &&& (self.mode == AdaptMode::CropHeight ==> self.dst_width == self.src_width)
        &&& (self.mode == AdaptMode::CropWidth ==> self.dst_height == self.src_height)
    }

    /// A scaler that crops `(src_width, src_height)` to the encoder maximum
    /// and to even dimensions.
    pub fn new(src_width: u32, src_height: u32) -> (s: Self)
        ensures
            s.wf(),
            s.src_width == src_width,
            s.src_height == src_height,
            s.dst_width == crop_dim(src_width as int, OPENH264_MAX_WIDTH as int),
            s.dst_height == crop_dim(src_height as int, OPENH264_MAX_HEIGHT as int),
            s.mode == crop_mode(
                src_width as int,
                src_height as int,
                s.dst_width as int,
                s.dst_height as int,
            ),
    {
        let dst_width = if src_width > OPENH264_MAX_WIDTH {
            OPENH264_MAX_WIDTH
        } else {
            src_width - src_width % 2
        };
        let dst_height = if src_height > OPENH264_MAX_HEIGHT {
            OPENH264_MAX_HEIGHT
        } else {
            src_height - src_height % 2
        };
        let mode = if dst_width == src_width && dst_height == src_height {
            AdaptMode::Passthrough
        } else if dst_width == src_width {
            AdaptMode::CropHeight
        } else if dst_height == src_height {
            AdaptMode::CropWidth
        } else {
            AdaptMode::CropBoth
        };
        let needs_scaling = dst_width != src_width || dst_height != src_height;
        FrameScaler { src_width, src_height, dst_width, dst_height, needs_scaling, mode }
    }

    /// A scaler that downscales `(src_width, src_height)` to fit inside the box
    /// `(target_width, target_height)`, keeping the aspect ratio, never
    /// upscaling, and rounding to even dimensions within the encoder maximum.
    pub fn new_with_target(src_width: u32, src_height: u32, target_width: u32, target_height: u32) -> (s: Self)
        ensures
            s.wf(),
            s.src_width == src_width,
            s.src_height == src_height,
            (s.dst_width as int, s.dst_height as int) == fit_dims(
                src_width as int,
                src_height as int,
                target_width as int,
                target_height as int,
            ),
            s.dst_width <= target_width,
            s.dst_height <= target_height,
            keeps_aspect(src_width as int, src_height as int, s.dst_width as int, s.dst_height as int),
            s.mode == (if s.needs_scaling { AdaptMode::Downscale } else { AdaptMode::Passthrough }),
    {
        proof {
            lemma_fit_dims_bounds(src_width as int, src_height as int, target_width as int, target_height as int);
        }
        let mut mw = if target_width < src_width { target_width } else { src_width };
        if mw > OPENH264_MAX_WIDTH {
            mw = OPENH264_MAX_WIDTH;
        }
        let mut mh = if target_height < src_height { target_height } else { src_height };
        if mh > OPENH264_MAX_HEIGHT {
            mh = OPENH264_MAX_HEIGHT;
        }
        let sw = src_width as u64;
        let sh = src_height as u64;
        let (fw, fh): (u64, u64) = if src_width == 0 || src_height == 0 {
            (0, 0)
        } else {
            assert(mw as u64 * sh <= u32::MAX as u64 * u32::MAX as u64) by (nonlinear_arith)
                requires mw <= u32::MAX, sh <= u32::MAX;
            assert(sh * mw as u64 <= u32::MAX as u64 * u32::MAX as u64) by (nonlinear_arith)
                requires mw <= u32::MAX, sh <= u32::MAX;
            assert(sw * mh as u64 <= u32::MAX as u64 * u32::MAX as u64) by (nonlinear_arith)
                requires mh <= u32::MAX, sw <= u32::MAX;
            assert(mh as u64 * sw <= u32::MAX as u64 * u32::MAX as u64) by (nonlinear_arith)
                requires mh <= u32::MAX, sw <= u32::MAX;
            if mw as u64 * sh <= mh as u64 * sw {
                (mw as u64, sh * mw as u64 / sw)
            } else {
                (sw * mh as u64 / sh, mh as u64)
            }
        };
        let dst_width = (fw - fw % 2) as u32;
        let dst_height = (fh - fh % 2) as u32;
        let needs_scaling = dst_width != src_width || dst_height != src_height;
        let mode = if needs_scaling {
            AdaptMode::Downscale
        } else {
            AdaptMode::Passthrough
        };
        FrameScaler { src_width, src_height, dst_width, dst_height, needs_scaling, mode }
    }

    /// Adapts the BGRA frame `bgra` to the destination size. Height-only
    /// cropping and pass-through borrow the source; other modes allocate.
    pub fn scale<'a>(&self, bgra: &'a [u8]) -> (r: std::borrow::Cow<'a, [u8]>)
        requires
            self.wf(),
            bgra@.len() >= self.src_width * self.src_height * 4,
        ensures
            r@ == self.scaled_bytes(bgra@),
            (self.mode == AdaptMode::Passthrough || self.mode == AdaptMode::CropHeight) ==> (r is Borrowed),
            (self.mode == AdaptMode::CropWidth || self.mode == AdaptMode::CropBoth || self.mode
                == AdaptMode::Downscale) ==> (r is Owned),
            !self.needs_scaling ==> r@ == bgra@,
    {
        match self.mode {
            AdaptMode::Passthrough => std::borrow::Cow::Borrowed(bgra),
            AdaptMode::CropHeight => {
                let total = self.crop_height_len();
                let out = slice_subrange(bgra, 0, total);
                proof {
                    assert forall|i: int| 0 <= i < self.dst_len() implies out@[i] == bgra@[self.source_index(i)] by {
                        self.lemma_crop_height_index(i);
                    }
                    assert(out@ =~= self.scaled_bytes(bgra@));
                }
                std::borrow::Cow::Borrowed(out)
            },
            AdaptMode::CropWidth | AdaptMode::CropBoth => std::borrow::Cow::Owned(self.crop_rows(bgra)),
            AdaptMode::Downscale => std::borrow::Cow::Owned(self.downscale_nearest(bgra)),
        }
    }

    /// Byte length of the destination when only rows are dropped.
    fn crop_height_len(&self) -> (n: usize)
        requires
            self.wf(),
            self.mode == AdaptMode::CropHeight,
        ensures
            n == self.dst_len(),
            n <= self.src_width * self.src_height * 4,
    {
        assert(self.dst_width * self.dst_height * 4 <= self.src_width * self.src_height * 4) by (nonlinear_arith)
            requires self.dst_width == self.src_width, self.dst_height <= self.src_height;
        assert(self.dst_width * self.dst_height * 4 <= 3840 * 2160 * 4) by (nonlinear_arith)
            requires self.dst_width <= 3840, self.dst_height <= 2160;
        self.dst_width as usize * self.dst_height as usize * 4
    }

    proof fn lemma_crop_height_index(&self, i: int)
        requires
            self.wf(),
            self.mode == AdaptMode::CropHeight,
            0 <= i < self.dst_len(),
        ensures
            self.source_index(i) == i,
    {
        let w = self.dst_width as int;
        assert(w > 0) by (nonlinear_arith)
            requires 0 <= i < w * self.dst_height * 4, 0 <= self.dst_height;
        let p = i / 4;
        lemma_fundamental_div_mod(i, 4);
        lemma_fundamental_div_mod(p, w);
        assert(self.source_index(i) == ((p / w) * w + p % w) * 4 + i % 4);
        assert((p / w) * w + p % w == p) by (nonlinear_arith)
            requires p == w * (p / w) + p % w;
    }

    /// Drops columns from the right and rows from the bottom.
    fn crop_rows(&self, src: &[u8]) -> (out: Vec<u8>)
        requires
            self.wf(),
            self.mode == AdaptMode::CropWidth || self.mode == AdaptMode::CropBoth,
            src@.len() >= self.src_width * self.src_height * 4,
        ensures
            out@ == self.scaled_bytes(src@),
    {
        let dw = self.dst_width as usize;
        let dh = self.dst_height as usize;
        let mut out: Vec<u8> = Vec::new();
        if dw == 0 || dh == 0 {
            assert(self.dst_len() == 0) by (nonlinear_arith)
                requires dw == 0 || dh == 0, self.dst_len() == dw * dh * 4;
            assert(out@ =~= self.scaled_bytes(src@));
            return out;
        }
        let n = src.len();
        assert(self.src_width * 4 <= n) by (nonlinear_arith)
            requires self.src_height >= dh, dh >= 1, n >= self.src_width * self.src_height * 4;
        let src_stride = self.src_width as usize * 4;
        let dst_stride = dw * 4;
        let mut y: usize = 0;
        while y < dh
            invariant
                self.wf(),
                self.mode == AdaptMode::CropWidth || self.mode == AdaptMode::CropBoth,
                src@.len() >= self.src_width * self.src_height * 4,
                src@.len() == n,
                dw == self.dst_width,
                dh == self.dst_height,
                dw >= 1,
                src_stride == self.src_width * 4,
                dst_stride == dw * 4,
                y <= dh,
                out@.len() == y * dst_stride,
                forall|i: int| 0 <= i < out@.len() ==> #[trigger] out@[i] == src@[self.source_index(i)],
            decreases dh - y,
        {
            proof {
                lemma_pixel_in_frame(y as int, self.src_width - 1, 3, self.src_width as int, self.src_height as int);
                assert(y * src_stride + dst_stride <= self.src_width * self.src_height * 4) by (nonlinear_arith)
                    requires
                        (y * self.src_width + self.src_width - 1) * 4 + 3 < self.src_width * self.src_height * 4,
                        src_stride == self.src_width * 4,
                        dst_stride == dw * 4,
                        dw <= self.src_width;
            }
            let start = y * src_stride;
            let row = slice_subrange(src, start, start + dst_stride);
            let ghost old_out = out@;
            out.extend_from_slice(row);
            proof {
                assert forall|i: int| 0 <= i < out@.len() implies #[trigger] out@[i] == src@[self.source_index(i)] by {
                    if i >= old_out.len() {
                        let k = i - old_out.len();
                        assert(0 <= k < dst_stride);
                        lemma_fundamental_div_mod_converse(k, 4, k / 4, k % 4);
                        lemma_split_index(y as int, k / 4, k % 4, dw as int);
                        assert(i == (y * dw + k / 4) * 4 + k % 4) by (nonlinear_arith)
                            requires
                                i == old_out.len() + k,
                                old_out.len() == y * dst_stride,
                                dst_stride == dw * 4,
                                k == (k / 4) * 4 + k % 4;
                        assert(self.source_index(i) == start + k) by (nonlinear_arith)
                            requires
                                self.source_index(i) == (y * self.src_width + k / 4) * 4 + k % 4,
                                start == y * src_stride,
                                src_stride == self.src_width * 4,
                                k == (k / 4) * 4 + k % 4;
                    }
                }
                assert(out@.len() == (y + 1) * dst_stride) by (nonlinear_arith)
                    requires out@.len() == y * dst_stride + dst_stride;
            }
            y = y + 1;
        }
        proof {
            assert(out@.len() == self.dst_len()) by (nonlinear_arith)
                requires out@.len() == dh * dst_stride, dst_stride == dw * 4, self.dst_len() == dw * dh * 4;
            assert(out@ =~= self.scaled_bytes(src@));
        }
        out
    }

    /// Nearest-neighbour resample, with the source column offsets computed
    /// once per frame.
    fn downscale_nearest(&self, src: &[u8]) -> (out: Vec<u8>)
        requires
            self.wf(),
            self.mode == AdaptMode::Downscale,
            src@.len() >= self.src_width * self.src_height * 4,
        ensures
            out@ == self.scaled_bytes(src@),
    {
        let dw = self.dst_width as usize;
        let dh = self.dst_height as usize;
        let mut out: Vec<u8> = Vec::new();
        if dw == 0 || dh == 0 {
            assert(self.dst_len() == 0) by (nonlinear_arith)
                requires dw == 0 || dh == 0, self.dst_len() == dw * dh * 4;
            assert(out@ =~= self.scaled_bytes(src@));
            return out;
        }
        let sw = self.src_width as u64;
        let sh = self.src_height as u64;
        let n = src.len();
        assert(self.src_width * 4 <= n) by (nonlinear_arith)
            requires self.src_height >= dh, dh >= 1, n >= self.src_width * self.src_height * 4;
        let src_stride = self.src_width as usize * 4;
        let mut x_offsets: Vec<usize> = Vec::new();
        let mut x: usize = 0;
        while x < dw
            invariant
                self.wf(),
                self.mode == AdaptMode::Downscale,
                dw == self.dst_width,
                dw >= 1,
                sw == self.src_width,
                src_stride == self.src_width * 4,
                x <= dw,
                x_offsets@.len() == x,
                forall|j: int| 0 <= j < x ==> #[trigger] x_offsets@[j] == self.sample_x(j) * 4,
                forall|j: int| 0 <= j < x ==> 0 <= #[trigger] self.sample_x(j) < self.src_width,
            decreases dw - x,
        {
            proof {
                lemma_sample_below(x as int, sw as int, dw as int);
                assert(x as u64 * sw <= u32::MAX as u64 * u32::MAX as u64) by (nonlinear_arith)
                    requires x <= u32::MAX, sw <= u32::MAX;
            }
            let sx = (x as u64 * sw / dw as u64) as usize;
            x_offsets.push(sx * 4);
            x = x + 1;
        }
        assert(x == dw);
        let mut dy: usize = 0;
        while dy < dh
            invariant
                self.wf(),
                self.mode == AdaptMode::Downscale,
                src@.len() >= self.src_width * self.src_height * 4,
                src@.len() == n,
                dw == self.dst_width,
                dh == self.dst_height,
                dw >= 1,
                sh == self.src_height,
                src_stride == self.src_width * 4,
                x_offsets@.len() == dw,
                forall|j: int| 0 <= j < dw ==> #[trigger] x_offsets@[j] == self.sample_x(j) * 4,
                forall|j: int| 0 <= j < dw ==> 0 <= #[trigger] self.sample_x(j) < self.src_width,
                dy <= dh,
                out@.len() == dy * dw * 4,
                forall|i: int| 0 <= i < out@.len() ==> #[trigger] out@[i] == src@[self.source_index(i)],
            decreases dh - dy,
        {
            proof {
                lemma_sample_below(dy as int, sh as int, dh as int);
                assert(dy as u64 * sh <= u32::MAX as u64 * u32::MAX as u64) by (nonlinear_arith)
                    requires dy <= u32::MAX, sh <= u32::MAX;
            }
            let sy = (dy as u64 * sh / dh as u64) as usize;
            proof {
                lemma_pixel_in_frame(sy as int, 0, 0, self.src_width as int, self.src_height as int);
                assert(sy * src_stride <= src@.len()) by (nonlinear_arith)
                    requires
                        (sy * self.src_width + 0) * 4 + 0 < self.src_width * self.src_height * 4,
                        src_stride == self.src_width * 4,
                        src@.len() >= self.src_width * self.src_height * 4;
            }
            let src_row = sy * src_stride;
            let mut dx: usize = 0;
            while dx < dw
                invariant
                    self.wf(),
                    self.mode == AdaptMode::Downscale,
                    src@.len() >= self.src_width * self.src_height * 4,
                    src@.len() == n,
                    dw == self.dst_width,
                    dh == self.dst_height,
                    dw >= 1,
                    src_stride == self.src_width * 4,
                    x_offsets@.len() == dw,
                    forall|j: int| 0 <= j < dw ==> #[trigger] x_offsets@[j] == self.sample_x(j) * 4,
                forall|j: int| 0 <= j < dw ==> 0 <= #[trigger] self.sample_x(j) < self.src_width,
                    dy < dh,
                    sy == self.sample_y(dy as int),
                    sy < self.src_height,
                    src_row == sy * src_stride,
                    dx <= dw,
                    out@.len() == (dy * dw + dx) * 4,
                    forall|i: int| 0 <= i < out@.len() ==> #[trigger] out@[i] == src@[self.source_index(i)],
                decreases dw - dx,
            {
                let ghost sx = self.sample_x(dx as int);
                proof {
                    lemma_pixel_in_frame(sy as int, sx, 3, self.src_width as int, self.src_height as int);
                    assert(src_row + x_offsets@[dx as int] == (sy * self.src_width + sx) * 4) by (nonlinear_arith)
                        requires
                            src_row == sy * src_stride,
                            src_stride == self.src_width * 4,
                            x_offsets@[dx as int] == sx * 4;
                }
                let si = src_row + x_offsets[dx];
                let ghost base = out@.len();
                let mut c: usize = 0;
                while c < 4
                    invariant
                        self.wf(),
                        self.mode == AdaptMode::Downscale,
                        src@.len() >= self.src_width * self.src_height * 4,
                        dw == self.dst_width,
                        dw >= 1,
                        dy < dh,
                        dx < dw,
                        sy == self.sample_y(dy as int),
                        sx == self.sample_x(dx as int),
                        si == (sy * self.src_width + sx) * 4,
                        si + 3 < self.src_width * self.src_height * 4,
                        base == (dy * dw + dx) * 4,
                        c <= 4,
                        out@.len() == base + c,
                        forall|i: int| 0 <= i < out@.len() ==> #[trigger] out@[i] == src@[self.source_index(i)],
                    decreases 4 - c,
                {
                    proof {
                        lemma_split_index(dy as int, dx as int, c as int, dw as int);
                    }
                    out.push(src[si + c]);
                    c = c + 1;
                }
                dx = dx + 1;
            }
            proof {
                assert(out@.len() == (dy + 1) * dw * 4) by (nonlinear_arith)
                    requires out@.len() == (dy * dw + dw) * 4;
            }
            dy = dy + 1;
        }
        proof {
            assert(out@.len() == self.dst_len()) by (nonlinear_arith)
                requires out@.len() == dh * dw * 4, self.dst_len() == dw * dh * 4;
            assert(out@ =~= self.scaled_bytes(src@));
        }
        out
    }
}

} // verus!
