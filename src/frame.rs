use vstd::prelude::*;

use vstd::arithmetic::div_mod::{
    lemma_fundamental_div_mod, lemma_fundamental_div_mod_converse, lemma_mod_multiples_basic,
};

use std::rc::Rc;

use crate::error::CodecError;
use crate::format::{channel_count_spec, wide_format_spec, PixelFormat, WicPixelFormat};

verus! {

/// Interleaved 16-bit samples of one rendered frame.
#[derive(Debug, Clone)]
pub struct FrameBuffer {
    pub channels: usize,
    pub buf: Vec<u16>,
}

impl FrameBuffer {
    /// A zero-filled buffer for `width * height` pixels of `channels` samples.
    pub fn new(width: usize, height: usize, channels: usize) -> (r: Self)
        requires
            width * height <= usize::MAX,
            width * height * channels <= usize::MAX,
        ensures
            r.channels == channels,
            r.buf@.len() == width * height * channels,
            forall|i: int| 0 <= i < r.buf@.len() ==> r.buf@[i] == 0,
    {
        let n = width * height * channels;
        Self { channels, buf: vec![0u16; n] }
    }
}

/// The samples behind a frame view.
#[derive(Debug, Clone)]
pub enum Samples {
    /// 16-bit samples, interleaved in the channel order of the pixel format.
    Wide(Vec<u16>),
    /// 8-bit samples of four channels in red, green, blue, alpha order.
    Narrow(Vec<u8>),
}

/// A sub-rectangle in source pixel coordinates.
#[derive(Debug, Clone, Copy, PartialEq, Eq, Structural)]
pub struct Rect {
    pub x: i32,
    pub y: i32,
    pub width: i32,
    pub height: i32,
}

/// The number of ICC profiles a frame offers, and the profile itself when
/// exactly one slot was asked for.
#[derive(Debug)]
pub struct ColorContexts {
    pub actual_count: u32,
    pub profile: Option<Rc<Vec<u8>>>,
}

/// Byte `which` (0 low, 1 high) of a 16-bit sample in little-endian order.
pub open spec fn le_byte(s: u16, which: int) -> u8 {
    if which == 0 {
        (s as int % 256) as u8
    } else {
        (s as int / 256) as u8
    }
}

/// Within each 4-byte pixel, positions 0 and 2 trade places.
pub open spec fn swap_pos(k: int) -> int {
    if k % 4 == 0 {
        k + 2
    } else if k % 4 == 2 {
        k - 2
    } else {
        k
    }
}

/// A byte sequence with byte 0 and byte 2 of every 4-byte pixel swapped.
pub open spec fn swapped(s: Seq<u8>) -> Seq<u8> {
    Seq::new(s.len(), |k: int| s[swap_pos(k)])
}

/// Whether byte `k` of a destination with `stride` bytes from row to row lies
/// in the first `row_len` bytes of one of its first `rows` rows.
pub open spec fn in_region(k: int, stride: int, rows: int, row_len: int) -> bool {
    stride > 0 && k / stride < rows && k % stride < row_len
}

/// Byte `k` of a destination lies at column `j` of row `r` exactly when
/// `k == r * stride + j`.
proof fn lemma_row_column(k: int, stride: int, r: int, j: int)
    requires
        stride > 0,
        0 <= j < stride,
        r >= 0,
        k >= 0,
    ensures
        (k == r * stride + j) <==> (k / stride == r && k % stride == j),
{
    lemma_fundamental_div_mod(k, stride);
    assert(stride * r == r * stride) by (nonlinear_arith);
    if k == r * stride + j {
        lemma_fundamental_div_mod_converse(k, stride, r, j);
    }
}

/// Bounds on the source offsets of a row of a rectangle that fits the frame.
proof fn lemma_src_bound(a: int, hh: int, ww: int, x: int, w: int, bpp: int)
    requires
        0 <= a < hh,
        0 <= x,
        0 <= w,
        x + w <= ww,
        1 <= bpp,
    ensures
        0 <= a * ww <= a * ww + x,
        a * ww + x <= (a * ww + x) * bpp,
        (a * ww + x) * bpp + w * bpp <= ww * hh * bpp,
{
    assert(0 <= a * ww) by (nonlinear_arith)
        requires
            0 <= a,
            0 <= ww,
    ;
    assert(a * ww + x + w <= hh * ww) by (nonlinear_arith)
        requires
            a + 1 <= hh,
            x + w <= ww,
            0 <= ww,
    ;
    assert(a * ww + x <= (a * ww + x) * bpp) by (nonlinear_arith)
        requires
            0 <= a * ww + x,
            1 <= bpp,
    ;
    assert((a * ww + x) * bpp + w * bpp <= ww * hh * bpp) by (nonlinear_arith)
        requires
            a * ww + x + w <= hh * ww,
            0 <= a * ww + x,
            1 <= bpp,
    ;
}

/// An index into a buffer of whole 4-byte pixels stays inside when its pixel
/// positions are swapped.
proof fn lemma_swap_in_bounds(k: int, len: int)
    requires
        0 <= k < len,
        len % 4 == 0,
    ensures
        0 <= swap_pos(k) < len,
        swap_pos(swap_pos(k)) == k,
        swap_pos(k) / 4 == k / 4,
{
    lemma_fundamental_div_mod(k, 4);
    lemma_fundamental_div_mod(len, 4);
    let q = k / 4;
    let m = k % 4;
    if m == 0 {
        lemma_fundamental_div_mod_converse(k + 2, 4, q, 2);
    } else if m == 2 {
        lemma_fundamental_div_mod_converse(k - 2, 4, q, 0);
    }
}

/// Swaps byte 0 and byte 2 of every 4-byte pixel in place, turning red,
/// green, blue, alpha order into blue, green, red, alpha and back.
pub fn swap_red_blue(buf: &mut Vec<u8>)
    requires
        old(buf)@.len() % 4 == 0,
    ensures
        final(buf)@ == swapped(old(buf)@),
{
    let ghost orig = buf@;
    let n = buf.len();
    let mut i: usize = 0;
    while i < n
        invariant
            n == buf@.len(),
            n == orig.len(),
            n % 4 == 0,
            i % 4 == 0,
            i <= n,
            forall|k: int|
                0 <= k < n ==> #[trigger] buf@[k] == if k < i {
                    orig[swap_pos(k)]
                } else {
                    orig[k]
                },
        decreases n - i,
    {
        proof {
            lemma_fundamental_div_mod(i as int, 4);
            lemma_fundamental_div_mod(n as int, 4);
        }
        let first = buf[i];
        let third = buf[i + 2];
        buf.set(i, third);
        buf.set(i + 2, first);
        proof {
            assert forall|k: int| 0 <= k < n implies #[trigger] buf@[k] == if k < i + 4 {
                orig[swap_pos(k)]
            } else {
                orig[k]
            } by {
                if i <= k < i + 4 {
                    lemma_fundamental_div_mod_converse(k, 4, (i / 4) as int, k - i);
                }
            }
            lemma_fundamental_div_mod_converse((i + 4) as int, 4, (i / 4 + 1) as int, 0);
        }
        i = i + 4;
    }
    assert(buf@ =~= swapped(orig));
}

/// Swapping byte 0 and byte 2 of every 4-byte pixel twice gives back the
/// original bytes.
pub proof fn lemma_swap_involution(s: Seq<u8>)
    requires
        s.len() % 4 == 0,
    ensures
        swapped(swapped(s)) == s,
{
    assert forall|k: int| 0 <= k < s.len() implies swapped(swapped(s))[k] == s[k] by {
        lemma_swap_in_bounds(k, s.len() as int);
    }
    assert(swapped(swapped(s)) =~= s);
}

/// The bytes of a rectangle are the bytes of its upper `top` rows followed by
/// the bytes of the rows below them: copying the two parts one after the
/// other gives what one copy of the whole gives.
pub proof fn lemma_vertical_split(frame: &JXLWICBitmapFrameDecode, rect: Rect, top: i32)
    requires
        frame.rect_fits(rect),
        rect.y + rect.height <= i32::MAX,
        0 <= top <= rect.height,
    ensures
        frame.rect_bytes(rect) == frame.rect_bytes(Rect { height: top, ..rect }) + frame.rect_bytes(
            Rect { y: (rect.y + top) as i32, height: (rect.height - top) as i32, ..rect },
        ),
{
    let upper = Rect { height: top, ..rect };
    let lower = Rect { y: (rect.y + top) as i32, height: (rect.height - top) as i32, ..rect };
    let row = frame.row_len(rect);
    assert(row >= 0) by (nonlinear_arith)
        requires
            rect.width >= 0,
            row == rect.width * frame.bytes_per_pixel_spec(),
    ;
    assert(rect.height * row == top * row + (rect.height - top) * row) by (nonlinear_arith);
    assert(top * row >= 0 && (rect.height - top) * row >= 0) by (nonlinear_arith)
        requires
            0 <= top <= rect.height,
            row >= 0,
    ;
    let whole = frame.rect_bytes(rect);
    let joined = frame.rect_bytes(upper) + frame.rect_bytes(lower);
    assert forall|i: int| 0 <= i < whole.len() implies whole[i] == joined[i] by {
        assert(row > 0) by (nonlinear_arith)
            requires
                0 <= i < rect.height * row,
                row >= 0,
                rect.height >= 0,
        ;
        let q = i / row;
        let m = i % row;
        lemma_fundamental_div_mod(i, row);
        if i >= top * row {
            assert(i - top * row == (q - top) * row + m) by (nonlinear_arith)
                requires
                    i == row * q + m,
            ;
            lemma_fundamental_div_mod_converse(i - top * row, row, q - top, m);
            assert((rect.y + top) + (q - top) == rect.y + q);
        }
    }
    assert(whole =~= joined);
}

/// The bytes a copy reads from an 8-bit frame are its red, green, blue,
/// alpha samples with bytes 0 and 2 of each pixel swapped, and swapping them
/// once more gives the samples back.
pub proof fn lemma_narrow_bytes_swapped(frame: &JXLWICBitmapFrameDecode)
    requires
        frame.wf(),
        frame.samples_spec() is Narrow,
    ensures
        ({
            let v = frame.samples_spec()->Narrow_0@;
            let bytes = Seq::new(v.len(), |k: int| frame.byte_at(k));
            &&& bytes == swapped(v)
            &&& swapped(bytes) == v
        }),
{
    let v = frame.samples_spec()->Narrow_0@;
    let bytes = Seq::new(v.len(), |k: int| frame.byte_at(k));
    assert(bytes =~= swapped(v));
    lemma_mod_multiples_basic((frame.width_spec() * frame.height_spec()) as int, 4);
    lemma_swap_involution(v);
}

/// A frame of gray with alpha is refused by every copy, whatever the
/// rectangle, stride or buffer, and by the format query.
pub proof fn lemma_gray_alpha_refused(
    frame: &JXLWICBitmapFrameDecode,
    rect: Option<Rect>,
    stride: Option<u32>,
    len: int,
)
    requires
        frame.wf(),
        frame.format_spec() == PixelFormat::GrayAlpha,
    ensures
        frame.copy_error(rect, stride, len) == Some(CodecError::UnsupportedPixelFormat),
        frame.format_query_spec() == Err::<WicPixelFormat, CodecError>(
            CodecError::UnsupportedPixelFormat,
        ),
{
}

/// Relies on `Rc::clone`: the clone points at the same value.
#[verifier::external_body]
pub(crate) fn share_profile(p: &Rc<Vec<u8>>) -> (r: Rc<Vec<u8>>)
    ensures
        r@ == p@,
{
    Rc::clone(p)
}

/// A decoded frame: its samples, pixel format, ICC profile and dimensions.
pub struct JXLWICBitmapFrameDecode {
    samples: Samples,
    pixel_format: PixelFormat,
    icc: Rc<Vec<u8>>,
    width: u32,
    height: u32,
}

impl JXLWICBitmapFrameDecode {
    pub closed spec fn samples_spec(&self) -> Samples {
        self.samples
    }

    pub closed spec fn format_spec(&self) -> PixelFormat {
        self.pixel_format
    }

    pub closed spec fn icc_spec(&self) -> Seq<u8> {
        self.icc@
    }

    pub closed spec fn width_spec(&self) -> nat {
        self.width as nat
    }

    pub closed spec fn height_spec(&self) -> nat {
        self.height as nat
    }

    /// Channels per pixel as the samples hold them.
    pub open spec fn channels_spec(&self) -> nat {
        match self.samples_spec() {
            Samples::Wide(_) => channel_count_spec(self.format_spec()),
            Samples::Narrow(_) => 4,
        }
    }

    /// Bytes per sample: 2 for 16-bit samples, 1 for 8-bit ones.
    pub open spec fn sample_size_spec(&self) -> nat {
        match self.samples_spec() {
            Samples::Wide(_) => 2,
            Samples::Narrow(_) => 1,
        }
    }

    pub open spec fn bytes_per_pixel_spec(&self) -> nat {
        self.channels_spec() * self.sample_size_spec()
    }

    /// The samples number `width * height * channels`; 8-bit frames hold
    /// red, green, blue, alpha pixels.
    pub open spec fn wf(&self) -> bool {
        match self.samples_spec() {
            Samples::Wide(v) => {
                &&& v@.len() == self.width_spec() * self.height_spec() * channel_count_spec(
                    self.format_spec(),
                )
                &&& 2 * v@.len() <= usize::MAX
            },
            Samples::Narrow(v) => {
                &&& v@.len() == self.width_spec() * self.height_spec() * 4
                &&& v@.len() <= usize::MAX
                &&& self.format_spec() == PixelFormat::Rgba
            },
        }
    }

    /// Number of bytes of the frame as the destination sees it.
    pub open spec fn byte_len(&self) -> nat {
        match self.samples_spec() {
            Samples::Wide(v) => 2 * v@.len(),
            Samples::Narrow(v) => v@.len(),
        }
    }

    /// Byte `k` of the frame as the destination sees it: 16-bit samples in
    /// little-endian order, 8-bit pixels with channel 0 and channel 2 swapped.
    pub open spec fn byte_at(&self, k: int) -> u8 {
        match self.samples_spec() {
            Samples::Wide(v) => le_byte(v@[k / 2], k % 2),
            Samples::Narrow(v) => v@[swap_pos(k)],
        }
    }

    /// Bytes of one row of `rect` in the destination.
    pub open spec fn row_len(&self, rect: Rect) -> int {
        rect.width * self.bytes_per_pixel_spec()
    }

    /// Offset, in the frame's bytes, of the first byte of row `r` of `rect`.
    pub open spec fn src_start(&self, rect: Rect, r: int) -> int {
        ((rect.y + r) * self.width_spec() + rect.x) * self.bytes_per_pixel_spec()
    }

    pub open spec fn rect_fits(&self, rect: Rect) -> bool {
        &&& rect.x >= 0
        &&& rect.y >= 0
        &&& rect.width >= 0
        &&& rect.height >= 0
        &&& rect.x + rect.width <= self.width_spec()
        &&& rect.y + rect.height <= self.height_spec()
    }

    /// The bytes of `rect`, row after row, packed without gaps.
    pub open spec fn rect_bytes(&self, rect: Rect) -> Seq<u8> {
        let row = self.row_len(rect);
        Seq::new(
            (rect.height * row) as nat,
            |i: int| self.byte_at(self.src_start(rect, i / row) + i % row),
        )
    }

    /// The destination after `rect` was copied into `dest` with `stride`
    /// bytes from row to row: the bytes of each row of the region come from
    /// the frame, all others are left as they were.
    pub open spec fn copied(&self, rect: Rect, stride: int, dest: Seq<u8>) -> Seq<u8> {
        let row = self.row_len(rect);
        Seq::new(
            dest.len(),
            |k: int|
                if in_region(k, stride, rect.height as int, row) {
                    self.byte_at(self.src_start(rect, k / stride) + k % stride)
                } else {
                    dest[k]
                },
        )
    }

    /// Row-to-row advance in the destination: the given stride, else the
    /// packed row length.
    pub open spec fn stride_of(&self, rect: Rect, stride: Option<u32>) -> int {
        match stride {
            Some(s) => s as int,
            None => self.row_len(rect),
        }
    }

    /// Whether the destination holds every row of `rect` at `stride`.
    pub open spec fn dest_holds(&self, rect: Rect, stride: int, len: int) -> bool {
        rect.height == 0 || (rect.height - 1) * stride + self.row_len(rect) <= len
    }

    /// The error a copy reports, if any: an unsupported source layout first,
    /// then an absent or out-of-range rectangle, a stride shorter than a row,
    /// or a destination too small.
    pub open spec fn copy_error(&self, rect: Option<Rect>, stride: Option<u32>, len: int) -> Option<
        CodecError,
    > {
        if self.sample_size_spec() == 2 && wide_format_spec(self.format_spec()) is None {
            Some(CodecError::UnsupportedPixelFormat)
        } else {
            match rect {
                None => Some(CodecError::InvalidArgument),
                Some(rc) => {
                    if !self.rect_fits(rc) {
                        Some(CodecError::InvalidArgument)
                    } else if self.stride_of(rc, stride) < self.row_len(rc) {
                        Some(CodecError::InvalidArgument)
                    } else if !self.dest_holds(rc, self.stride_of(rc, stride), len) {
                        Some(CodecError::InvalidArgument)
                    } else {
                        None
                    }
                },
            }
        }
    }

    /// The destination format of this frame: the 16-bit format of its
    /// layout, or blue-green-red-alpha for 8-bit frames.
    pub open spec fn format_query_spec(&self) -> Result<WicPixelFormat, CodecError> {
        if self.sample_size_spec() == 1 {
            Ok(WicPixelFormat::Bgra32)
        } else {
            match wide_format_spec(self.format_spec()) {
                Some(w) => Ok(w),
                None => Err(CodecError::UnsupportedPixelFormat),
            }
        }
    }

    /// A view of 16-bit samples in the channel order of `pixel_format`.
    pub fn new(
        frame: FrameBuffer,
        pixel_format: PixelFormat,
        icc: Rc<Vec<u8>>,
        width: u32,
        height: u32,
    ) -> (r: Self)
        requires
            frame.channels == channel_count_spec(pixel_format),
            frame.buf@.len() == width * height * frame.channels,
            2 * frame.buf@.len() <= usize::MAX,
        ensures
            r.wf(),
            r.samples_spec() == Samples::Wide(frame.buf),
            r.format_spec() == pixel_format,
            r.icc_spec() == icc@,
            r.width_spec() == width,
            r.height_spec() == height,
            r.sample_size_spec() == 2,
            r.channels_spec() == frame.channels,
    {
        Self { samples: Samples::Wide(frame.buf), pixel_format, icc, width, height }
    }

    /// A view of 8-bit red, green, blue, alpha pixels.
    pub fn from_rgba8(pixels: Vec<u8>, icc: Rc<Vec<u8>>, width: u32, height: u32) -> (r: Self)
        requires
            pixels@.len() == width * height * 4,
        ensures
            r.wf(),
            r.samples_spec() == Samples::Narrow(pixels),
            r.format_spec() == PixelFormat::Rgba,
            r.icc_spec() == icc@,
            r.width_spec() == width,
            r.height_spec() == height,
            r.sample_size_spec() == 1,
            r.channels_spec() == 4,
    {
        // Reading the length bounds it by the address space.
        let _ = pixels.len();
        Self { samples: Samples::Narrow(pixels), pixel_format: PixelFormat::Rgba, icc, width, height }
    }

    /// The frame's bytes, as the destination sees them, number
    /// `width * height * bytes_per_pixel`.
    proof fn lemma_byte_len(&self)
        requires
            self.wf(),
        ensures
            self.byte_len() == self.width_spec() * self.height_spec() * self.bytes_per_pixel_spec(),
            self.byte_len() <= usize::MAX,
            1 <= self.bytes_per_pixel_spec() <= 10,
    {
        let w = self.width_spec() as int;
        let h = self.height_spec() as int;
        let c = self.channels_spec() as int;
        let z = self.sample_size_spec() as int;
        assert(z * (w * h * c) == w * h * (c * z)) by (nonlinear_arith);
        assert(1 <= c * z <= 10) by (nonlinear_arith)
            requires
                1 <= c <= 5,
                1 <= z <= 2,
        ;
    }

    fn bytes_per_pixel(&self) -> (r: usize)
        requires
            self.wf(),
        ensures
            r == self.bytes_per_pixel_spec(),
    {
        match self.samples {
            Samples::Wide(_) => self.pixel_format.channel_count() * 2,
            Samples::Narrow(_) => 4,
        }
    }

    fn byte_at_exec(&self, k: usize) -> (b: u8)
        requires
            self.wf(),
            k < self.byte_len(),
        ensures
            b == self.byte_at(k as int),
    {
        match &self.samples {
            Samples::Wide(v) => {
                let s = v[k / 2];
                if k % 2 == 0 {
                    (s % 256) as u8
                } else {
                    (s / 256) as u8
                }
            },
            Samples::Narrow(v) => {
                proof {
                    lemma_mod_multiples_basic(self.width * self.height, 4);
                    lemma_swap_in_bounds(k as int, v@.len() as int);
                }
                let m = k % 4;
                let p = if m == 0 {
                    k + 2
                } else if m == 2 {
                    k - 2
                } else {
                    k
                };
                v[p]
            },
        }
    }

    /// With the packed stride, the first rows of the destination hold exactly
    /// the bytes of the rectangle.
    proof fn lemma_packed_copy(&self, rect: Rect, dest: Seq<u8>)
        requires
            self.rect_fits(rect),
            self.row_len(rect) > 0,
            rect.height * self.row_len(rect) <= dest.len(),
        ensures
            self.copied(rect, self.row_len(rect), dest).subrange(
                0,
                self.rect_bytes(rect).len() as int,
            ) == self.rect_bytes(rect),
    {
        let row = self.row_len(rect);
        let n = rect.height * row;
        assert(self.rect_bytes(rect).len() == n) by {
            assert(n >= 0) by (nonlinear_arith)
                requires
                    rect.height >= 0,
                    row > 0,
                    n == rect.height * row,
            ;
        }
        assert forall|i: int| 0 <= i < n implies in_region(i, row, rect.height as int, row) by {
            lemma_fundamental_div_mod(i, row);
            assert(i / row < rect.height) by (nonlinear_arith)
                requires
                    0 <= i < rect.height * row,
                    row > 0,
                    i == row * (i / row) + i % row,
                    0 <= i % row < row,
            ;
        }
        assert(self.copied(rect, row, dest).subrange(0, n) =~= self.rect_bytes(rect));
    }

    /// Copies `rect` into `buffer`, row after row from the top, advancing
    /// `stride` bytes per row (the packed row length when absent). Nothing is
    /// written unless the whole copy can be made.
    pub fn CopyPixels(&self, rect: Option<Rect>, stride: Option<u32>, buffer: &mut [u8]) -> (r:
        Result<(), CodecError>)
        requires
            self.wf(),
        ensures
            match self.copy_error(rect, stride, old(buffer)@.len() as int) {
                Some(e) => r == Err::<(), CodecError>(e) && final(buffer)@ == old(buffer)@,
                None => r is Ok && final(buffer)@ == self.copied(
                    rect.unwrap(),
                    self.stride_of(rect.unwrap(), stride),
                    old(buffer)@,
                ),
            },
            r is Ok && stride is None ==> final(buffer)@.subrange(
                0,
                self.rect_bytes(rect.unwrap()).len() as int,
            ) == self.rect_bytes(rect.unwrap()),
    {
        let len = buffer.len();
        if let Samples::Wide(_) = self.samples {
            if let Err(e) = self.pixel_format.wide_format() {
                return Err(e);
            }
        }
        let rc = match rect {
            None => {
                return Err(CodecError::InvalidArgument);
            },
            Some(rc) => rc,
        };
        if rc.x < 0 || rc.y < 0 || rc.width < 0 || rc.height < 0 {
            return Err(CodecError::InvalidArgument);
        }
        let x = rc.x as u64;
        let y = rc.y as u64;
        let w = rc.width as u64;
        let h = rc.height as u64;
        if x + w > self.width as u64 || y + h > self.height as u64 {
            return Err(CodecError::InvalidArgument);
        }
        let bpp = self.bytes_per_pixel();
        proof {
            self.lemma_byte_len();
        }
        assert(w * bpp <= 10 * 0x8000_0000u64) by (nonlinear_arith)
            requires
                w < 0x8000_0000u64,
                bpp <= 10,
        ;
        let row = w * (bpp as u64);
        let step: u64 = match stride {
            Some(s) => s as u64,
            None => row,
        };
        if step < row {
            return Err(CodecError::InvalidArgument);
        }
        if h == 0 {
            proof {
                assert(final(buffer)@ =~= self.copied(rc, step as int, old(buffer)@));
                assert(self.rect_bytes(rc).len() == 0);
                assert(final(buffer)@.subrange(0, 0) =~= self.rect_bytes(rc));
            }
            return Ok(());
        }
        let span = match (h - 1).checked_mul(step) {
            Some(before) => before.checked_add(row),
            None => None,
        };
        let span = match span {
            Some(n) => n,
            None => {
                assert((h - 1) * step + row > u64::MAX);
                return Err(CodecError::InvalidArgument);
            },
        };
        if span > len as u64 {
            return Err(CodecError::InvalidArgument);
        }
        let ghost orig = buffer@;
        let ghost row_i = row as int;
        let ghost step_i = step as int;
        let h = h as usize;
        let row = row as usize;
        let step = step as usize;
        let x = x as usize;
        let y = y as usize;
        let width = self.width as usize;
        assert(self.row_len(rc) == row_i);
        let mut r: usize = 0;
        while r < h
            invariant
                self.wf(),
                0 <= r <= h,
                h == rc.height,
                h >= 1,
                x == rc.x,
                y == rc.y,
                width == self.width_spec(),
                self.rect_fits(rc),
                row == row_i,
                row_i == self.row_len(rc),
                step == step_i,
                step_i >= row_i,
                bpp == self.bytes_per_pixel_spec(),
                (h - 1) * step + row <= len,
                buffer@.len() == len,
                len == orig.len(),
                self.byte_len() == self.width_spec() * self.height_spec() * bpp,
                self.byte_len() <= usize::MAX,
                1 <= bpp <= 10,
                forall|k: int|
                    0 <= k < buffer@.len() ==> #[trigger] buffer@[k] == (if in_region(
                        k,
                        step_i,
                        r as int,
                        row_i,
                    ) {
                        self.byte_at(self.src_start(rc, k / step_i) + k % step_i)
                    } else {
                        orig[k]
                    }),
            decreases h - r,
        {
            assert(r * step + row <= (h - 1) * step + row) by (nonlinear_arith)
                requires
                    r <= h - 1,
                    step >= 0,
            ;
            assert(r * step <= len);
            let dst = r * step;
            proof {
                lemma_src_bound(
                    (y + r) as int,
                    self.height_spec() as int,
                    width as int,
                    x as int,
                    rc.width as int,
                    bpp as int,
                );
            }
            let src = ((y + r) * width + x) * bpp;
            assert(src == self.src_start(rc, r as int));
            let mut j: usize = 0;
            while j < row
                invariant
                    self.wf(),
                    0 <= r < h,
                    0 <= j <= row,
                    h == rc.height,
                    row == row_i,
                    row_i == self.row_len(rc),
                    step == step_i,
                    step_i >= row_i,
                    dst == r * step,
                    dst + row <= len,
                    buffer@.len() == len,
                    src == self.src_start(rc, r as int),
                    x == rc.x,
                    y == rc.y,
                    width == self.width_spec(),
                    self.rect_fits(rc),
                    bpp == self.bytes_per_pixel_spec(),
                    self.byte_len() == self.width_spec() * self.height_spec() * bpp,
                    1 <= bpp <= 10,
                    buffer@.len() == orig.len(),
                    forall|k: int|
                        0 <= k < buffer@.len() ==> #[trigger] buffer@[k] == (if in_region(
                            k,
                            step_i,
                            r as int,
                            row_i,
                        ) || (step_i > 0 && k / step_i == r && k % step_i < j) {
                            self.byte_at(self.src_start(rc, k / step_i) + k % step_i)
                        } else {
                            orig[k]
                        }),
                decreases row - j,
            {
                proof {
                    lemma_src_bound(
                        (y + r) as int,
                        self.height_spec() as int,
                        width as int,
                        x as int,
                        rc.width as int,
                        bpp as int,
                    );
                }
                let b = self.byte_at_exec(src + j);
                let ghost before = buffer@;
                buffer[dst + j] = b;
                proof {
                    lemma_row_column((dst + j) as int, step_i, r as int, j as int);
                    assert forall|k: int| 0 <= k < buffer@.len() implies #[trigger] buffer@[k] == (
                    if in_region(k, step_i, r as int, row_i) || (step_i > 0 && k / step_i == r && k
                        % step_i < j + 1) {
                        self.byte_at(self.src_start(rc, k / step_i) + k % step_i)
                    } else {
                        orig[k]
                    }) by {
                        lemma_row_column(k, step_i, r as int, j as int);
                        if k != dst + j {
                            assert(buffer@[k] == before[k]);
                        }
                    }
                }
                j += 1;
            }
            proof {
                assert forall|k: int| 0 <= k < buffer@.len() implies #[trigger] buffer@[k] == (
                if in_region(k, step_i, r + 1, row_i) {
                    self.byte_at(self.src_start(rc, k / step_i) + k % step_i)
                } else {
                    orig[k]
                }) by {
                    if step_i > 0 {
                        assert(in_region(k, step_i, r + 1, row_i) <==> (in_region(
                            k,
                            step_i,
                            r as int,
                            row_i,
                        ) || (k / step_i == r && k % step_i < row_i)));
                    }
                }
            }
            r += 1;
        }
        proof {
            assert(final(buffer)@ =~= self.copied(rc, step_i, orig));
            if stride is None {
                if row_i > 0 {
                    assert(rc.height * row_i == (h - 1) * step_i + row_i) by (nonlinear_arith)
                        requires
                            step_i == row_i,
                            h == rc.height,
                    ;
                    self.lemma_packed_copy(rc, orig);
                } else {
                    assert(rc.height * row_i == 0) by (nonlinear_arith)
                        requires
                            row_i == 0,
                    ;
                    assert(final(buffer)@.subrange(0, 0) =~= self.rect_bytes(rc));
                }
            }
        }
        Ok(())
    }

    /// Width and height in pixels.
    pub fn GetSize(&self) -> (r: (u32, u32))
        ensures
            r.0 == self.width_spec(),
            r.1 == self.height_spec(),
    {
        (self.width, self.height)
    }

    /// The channel layout of the samples.
    pub fn pixel_format(&self) -> (r: PixelFormat)
        ensures
            r == self.format_spec(),
    {
        self.pixel_format
    }

    /// The destination pixel format that `CopyPixels` writes.
    pub fn GetPixelFormat(&self) -> (r: Result<WicPixelFormat, CodecError>)
        ensures
            r == self.format_query_spec(),
    {
        match self.samples {
            Samples::Narrow(_) => Ok(WicPixelFormat::Bgra32),
            Samples::Wide(_) => self.pixel_format.wide_format(),
        }
    }

    /// Horizontal and vertical resolution in dots per inch: always 96, as
    /// no resolution is carried over from the image.
    pub fn GetResolution(&self) -> (r: (u32, u32))
        ensures
            r == (96u32, 96u32),
    {
        (96, 96)
    }

    /// Frames have no palette.
    pub fn CopyPalette(&self) -> (r: Result<(), CodecError>)
        ensures
            r == Err::<(), CodecError>(CodecError::UnsupportedOperation),
    {
        Err(CodecError::UnsupportedOperation)
    }

    /// Frames offer no metadata reader.
    pub fn GetMetadataQueryReader(&self) -> (r: Result<(), CodecError>)
        ensures
            r == Err::<(), CodecError>(CodecError::UnsupportedOperation),
    {
        Err(CodecError::UnsupportedOperation)
    }

    /// Frames carry no embedded thumbnail.
    pub fn GetThumbnail(&self) -> (r: Result<(), CodecError>)
        ensures
            r == Err::<(), CodecError>(CodecError::NoThumbnail),
    {
        Err(CodecError::NoThumbnail)
    }

    /// The ICC profile: one context is offered, and the profile is handed out
    /// when the caller asks for exactly one.
    pub fn GetColorContexts(&self, count: u32) -> (r: ColorContexts)
        ensures
            r.actual_count == 1,
            count == 1 ==> (r.profile matches Some(p) && p@ == self.icc_spec()),
            count != 1 ==> r.profile is None,
    {
        let profile = if count == 1 {
            Some(share_profile(&self.icc))
        } else {
            None
        };
        ColorContexts { actual_count: 1, profile }
    }
}

} // verus!
