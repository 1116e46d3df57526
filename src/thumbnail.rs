use vstd::prelude::*;

use vstd::arithmetic::div_mod::{
    lemma_div_is_ordered, lemma_fundamental_div_mod, lemma_fundamental_div_mod_converse,
};

use crate::decoder::{JXLWICBitmapDecoder, SessionState};
use crate::error::CodecError;
use crate::format::PixelFormat;
use crate::frame::{swap_red_blue, swapped};

verus! {

/// How the colour channels of a bitmap relate to its alpha channel.
#[derive(Debug, Clone, Copy, PartialEq, Eq, Structural)]
pub enum AlphaSemantics {
    Unknown,
    StraightAlpha,
    PremultipliedAlpha,
}

/// A decoded image of 8-bit red, green, blue, alpha pixels.
#[derive(Debug, Clone)]
pub struct RgbaImage {
    pub width: u32,
    pub height: u32,
    pub pixels: Vec<u8>,
}

/// A thumbnail of 8-bit blue, green, red, alpha pixels.
#[derive(Debug, Clone)]
pub struct ThumbnailOutput {
    pub width: u32,
    pub height: u32,
    pub pixels: Vec<u8>,
    pub alpha: AlphaSemantics,
}

/// One side of a thumbnail: the side divided by the shrink ratio
/// `longest / max_edge` (never below 1), rounded to the nearest integer.
pub open spec fn thumb_dim(side: int, longest: int, max_edge: int) -> int {
    if max_edge == 0 {
        0
    } else if longest <= max_edge {
        side
    } else {
        (2 * side * max_edge + longest) / (2 * longest)
    }
}

pub open spec fn max_of(a: int, b: int) -> int {
    if a >= b {
        a
    } else {
        b
    }
}

pub open spec fn abs_of(a: int) -> int {
    if a >= 0 {
        a
    } else {
        -a
    }
}

/// Weight of source sample `i` for destination sample `x` when `s` samples
/// are resampled to `d`: a triangle of half-width `max(s, d) / d` source
/// samples around the destination sample's centre, measured in units of
/// `1 / (2 * d)` source samples.
pub open spec fn tap(x: int, i: int, s: int, d: int) -> int {
    max_of(0, 2 * max_of(s, d) - abs_of((2 * i + 1) * d - (2 * x + 1) * s))
}

/// First source sample that may carry weight for destination sample `x`.
pub open spec fn window_lo(x: int, s: int, d: int) -> int {
    max_of(0, ((2 * x + 1) * s) / (2 * d) - (max_of(s, d) / d + 1))
}

/// One past the last source sample that may carry weight for `x`.
pub open spec fn window_hi(x: int, s: int, d: int) -> int {
    let h = ((2 * x + 1) * s) / (2 * d) + (max_of(s, d) / d + 1) + 1;
    if h <= s {
        h
    } else {
        s
    }
}

/// Weighted sum of the samples `buf[base + i * step]` for `lo <= i < hi`.
pub open spec fn line_sum(
    buf: Seq<u8>,
    base: int,
    step: int,
    x: int,
    s: int,
    d: int,
    lo: int,
    hi: int,
) -> int
    decreases hi - lo,
{
    if hi <= lo {
        0
    } else {
        line_sum(buf, base, step, x, s, d, lo, hi - 1) + tap(x, hi - 1, s, d) * buf[base + (hi
            - 1) * step]
    }
}

/// Sum of the weights for `lo <= i < hi`.
pub open spec fn weight_sum(x: int, s: int, d: int, lo: int, hi: int) -> int
    decreases hi - lo,
{
    if hi <= lo {
        0
    } else {
        weight_sum(x, s, d, lo, hi - 1) + tap(x, hi - 1, s, d)
    }
}

/// Destination sample `x` of the line `buf[base + i * step]`, `i < s`,
/// resampled to `d` samples: the weighted mean, rounded to nearest.
pub open spec fn resample_at(buf: Seq<u8>, base: int, step: int, x: int, s: int, d: int) -> int {
    let lo = window_lo(x, s, d);
    let hi = window_hi(x, s, d);
    let total = weight_sum(x, s, d, lo, hi);
    if total == 0 {
        0
    } else {
        (line_sum(buf, base, step, x, s, d, lo, hi) + total / 2) / total
    }
}

/// Rows of `sw` pixels resampled to `dw` pixels, channel by channel.
pub open spec fn horizontal(src: Seq<u8>, sw: int, sh: int, dw: int) -> Seq<u8> {
    Seq::new(
        (dw * sh * 4) as nat,
        |k: int|
            resample_at(src, ((k / 4) / dw) * sw * 4 + k % 4, 4, (k / 4) % dw, sw, dw) as u8,
    )
}

/// Columns of `sh` pixels resampled to `dh` pixels, channel by channel.
pub open spec fn vertical(tmp: Seq<u8>, dw: int, sh: int, dh: int) -> Seq<u8> {
    Seq::new(
        (dw * dh * 4) as nat,
        |k: int| resample_at(tmp, ((k / 4) % dw) * 4 + k % 4, dw * 4, (k / 4) / dw, sh, dh) as u8,
    )
}

/// An `sw` by `sh` image of 4-channel pixels resampled to `dw` by `dh`.
pub open spec fn resized(src: Seq<u8>, sw: int, sh: int, dw: int, dh: int) -> Seq<u8> {
    vertical(horizontal(src, sw, sh, dw), dw, sh, dh)
}

proof fn lemma_line_sum_bounds(
    buf: Seq<u8>,
    base: int,
    step: int,
    x: int,
    s: int,
    d: int,
    lo: int,
    hi: int,
)
    ensures
        0 <= line_sum(buf, base, step, x, s, d, lo, hi) <= 255 * weight_sum(x, s, d, lo, hi),
        0 <= weight_sum(x, s, d, lo, hi),
    decreases hi - lo,
{
    if hi > lo {
        lemma_line_sum_bounds(buf, base, step, x, s, d, lo, hi - 1);
        let t = tap(x, hi - 1, s, d);
        let v = buf[base + (hi - 1) * step] as int;
        assert(0 <= t * v <= 255 * t) by (nonlinear_arith)
            requires
                0 <= t,
                0 <= v <= 255,
        ;
    }
}

/// The rounded weighted mean of 8-bit samples is an 8-bit value.
proof fn lemma_mean_fits(sum: int, total: int)
    requires
        0 <= sum <= 255 * total,
        total > 0,
    ensures
        0 <= (sum + total / 2) / total <= 255,
{
    lemma_fundamental_div_mod_converse(255 * total + total / 2, total, 255, total / 2);
    lemma_div_is_ordered(sum + total / 2, 255 * total + total / 2, total);
    lemma_div_is_ordered(0, sum + total / 2, total);
}

/// Thumbnail width and height for an image of `width` by `height` pixels
/// whose longer side must not exceed `max_edge`.
pub fn thumbnail_size(width: u32, height: u32, max_edge: u32) -> (r: (u32, u32))
    ensures
        r.0 == thumb_dim(width as int, max_of(width as int, height as int), max_edge as int),
        r.1 == thumb_dim(height as int, max_of(width as int, height as int), max_edge as int),
{
    let longest = if width >= height {
        width
    } else {
        height
    };
    if max_edge == 0 {
        return (0, 0);
    }
    if longest <= max_edge {
        return (width, height);
    }
    let l = longest as u128;
    let e = max_edge as u128;
    assert(2 * (width as int) * (max_edge as int) + l <= 0x4_0000_0000_0000_0000) by (
    nonlinear_arith)
        requires
            width <= u32::MAX,
            max_edge <= u32::MAX,
            l <= u32::MAX,
    ;
    assert(2 * (height as int) * (max_edge as int) + l <= 0x4_0000_0000_0000_0000) by (
    nonlinear_arith)
        requires
            height <= u32::MAX,
            max_edge <= u32::MAX,
            l <= u32::MAX,
    ;
    let w = (2 * (width as u128) * e + l) / (2 * l);
    let h = (2 * (height as u128) * e + l) / (2 * l);
    proof {
        lemma_thumb_dim_bounded(width as int, l as int, e as int);
        lemma_thumb_dim_bounded(height as int, l as int, e as int);
    }
    (w as u32, h as u32)
}

/// A side no longer than the longest one shrinks to at most `max_edge`.
proof fn lemma_thumb_dim_bounded(side: int, longest: int, max_edge: int)
    requires
        0 <= side <= longest,
        0 < max_edge < longest,
    ensures
        0 <= (2 * side * max_edge + longest) / (2 * longest) <= max_edge,
        (2 * side * max_edge + longest) / (2 * longest) <= side,
{
    let n = 2 * side * max_edge + longest;
    let q = n / (2 * longest);
    lemma_fundamental_div_mod(n, 2 * longest);
    assert(n >= 0) by (nonlinear_arith)
        requires
            n == 2 * side * max_edge + longest,
            side >= 0,
            max_edge > 0,
            longest > 0,
    ;
    assert(0 <= q <= max_edge && q <= side) by (nonlinear_arith)
        requires
            n == 2 * longest * q + n % (2 * longest),
            0 <= n % (2 * longest),
            n == 2 * side * max_edge + longest,
            0 <= side <= longest,
            0 < max_edge < longest,
            n >= 0,
    ;
}

/// The thumbnail's longer side never exceeds `max_edge`; no side grows; and
/// when the image is shrunk, each side is within half a pixel of the side
/// divided by the exact shrink ratio `longest / max_edge`.
pub proof fn lemma_thumbnail_bounds(width: u32, height: u32, max_edge: u32)
    ensures
        ({
            let longest = max_of(width as int, height as int);
            let w = thumb_dim(width as int, longest, max_edge as int);
            let h = thumb_dim(height as int, longest, max_edge as int);
            &&& 0 <= w <= width
            &&& 0 <= h <= height
            &&& w <= max_edge
            &&& h <= max_edge
            &&& longest <= max_edge && max_edge > 0 ==> w == width && h == height
            &&& longest > max_edge > 0 ==> abs_of(2 * w * longest - 2 * width * max_edge)
                <= longest && abs_of(2 * h * longest - 2 * height * max_edge) <= longest
        }),
{
    let longest = max_of(width as int, height as int);
    let e = max_edge as int;
    if longest > e && e > 0 {
        lemma_thumb_dim_bounded(width as int, longest, e);
        lemma_thumb_dim_bounded(height as int, longest, e);
        lemma_half_pixel(width as int, longest, e);
        lemma_half_pixel(height as int, longest, e);
    }
}

proof fn lemma_half_pixel(side: int, longest: int, e: int)
    requires
        0 <= side <= longest,
        0 < e < longest,
    ensures
        abs_of(2 * ((2 * side * e + longest) / (2 * longest)) * longest - 2 * side * e)
            <= longest,
{
    let n = 2 * side * e + longest;
    let q = n / (2 * longest);
    lemma_fundamental_div_mod(n, 2 * longest);
    assert(abs_of(2 * q * longest - 2 * side * e) <= longest) by (nonlinear_arith)
        requires
            n == 2 * longest * q + n % (2 * longest),
            0 <= n % (2 * longest) < 2 * longest,
            n == 2 * side * e + longest,
            longest > 0,
    ;
}

/// Coordinates of byte `k` of an image of `a` by `b` pixels of 4 bytes.
proof fn lemma_pixel_coords(k: int, a: int, b: int)
    requires
        0 <= k < a * b * 4,
        a > 0,
    ensures
        0 <= k / 4 < a * b,
        0 <= (k / 4) / a < b,
        0 <= (k / 4) % a < a,
        0 <= k % 4 < 4,
{
    lemma_fundamental_div_mod(k, 4);
    let p = k / 4;
    assert(p < a * b) by (nonlinear_arith)
        requires
            k == 4 * p + k % 4,
            0 <= k % 4,
            k < a * b * 4,
    ;
    lemma_fundamental_div_mod(p, a);
    assert(p / a < b) by (nonlinear_arith)
        requires
            p == a * (p / a) + p % a,
            0 <= p % a,
            p < a * b,
            a > 0,
    ;
    assert(0 <= p / a) by (nonlinear_arith)
        requires
            p == a * (p / a) + p % a,
            p % a < a,
            p >= 0,
            a > 0,
    ;
}

/// Destination sample `x` of the line `buf[base + i * step]`, `i < s`,
/// resampled to `d` samples.
fn resample_line(buf: &Vec<u8>, base: usize, step: usize, x: usize, s: usize, d: usize) -> (r: u8)
    requires
        0 < d <= u32::MAX,
        s <= u32::MAX,
        x < d,
        s == 0 || base + (s - 1) * step < buf@.len(),
    ensures
        r as int == resample_at(buf@, base as int, step as int, x as int, s as int, d as int),
{
    let s_w = s as u128;
    let d_w = d as u128;
    let x_w = x as u128;
    let m = if s_w >= d_w {
        s_w
    } else {
        d_w
    };
    assert((2 * x_w + 1) * s_w <= 0x2_0000_0000 * 0x1_0000_0000) by (nonlinear_arith)
        requires
            x_w < 0x1_0000_0000,
            s_w < 0x1_0000_0000,
    ;
    let centre = ((2 * x_w + 1) * s_w) / (2 * d_w);
    let reach = m / d_w + 1;
    let lo = if centre >= reach {
        centre - reach
    } else {
        0
    };
    let far = centre + reach + 1;
    let hi = if far <= s_w {
        far
    } else {
        s_w
    };
    let ghost b = base as int;
    let ghost st = step as int;
    let here = (2 * x_w + 1) * s_w;
    let blen = buf.len();
    assert(lo == window_lo(x as int, s as int, d as int));
    assert(hi == window_hi(x as int, s as int, d as int));
    let mut i = lo;
    let mut acc: u128 = 0;
    let mut total: u128 = 0;
    while i < hi
        invariant
            lo <= i,
            i <= hi || i == lo,
            hi <= s_w,
            s_w == s,
            d_w == d,
            x_w == x,
            m == max_of(s as int, d as int),
            0 < d <= u32::MAX,
            s <= u32::MAX,
            s == 0 || base + (s - 1) * step < buf@.len(),
            acc == line_sum(buf@, b, st, x as int, s as int, d as int, lo as int, i as int),
            total == weight_sum(x as int, s as int, d as int, lo as int, i as int),
            acc <= 255 * total,
            total <= (i - lo) * 2 * m,
            here == (2 * x_w + 1) * s_w,
            blen == buf@.len(),
            b == base,
            st == step,
        decreases hi - i,
    {
        assert((2 * i + 1) * d_w <= 0x2_0000_0000 * 0x1_0000_0000) by (nonlinear_arith)
            requires
                i < 0x1_0000_0000,
                d_w < 0x1_0000_0000,
        ;
        let near = (2 * i + 1) * d_w;
        let diff = if near >= here {
            near - here
        } else {
            here - near
        };
        let w = if diff < 2 * m {
            2 * m - diff
        } else {
            0
        };
        assert(w == tap(x as int, i as int, s as int, d as int));
        assert(i * step <= (s - 1) * step) by (nonlinear_arith)
            requires
                i <= s - 1,
                step >= 0,
        ;
        let iu = i as usize;
        assert(iu == i);
        assert(base + iu * step == b + i * st) by (nonlinear_arith)
            requires
                iu == i,
                b == base,
                st == step,
        ;
        let v = buf[base + iu * step];
        assert(v == buf@[b + i * st]);
        assert((i - lo) * 2 * m + 2 * m <= 0x1_0000_0000 * 0x2_0000_0000) by (nonlinear_arith)
            requires
                i - lo < 0x1_0000_0000,
                m < 0x1_0000_0000,
        ;
        assert(w * (v as u128) <= 255 * w) by (nonlinear_arith)
            requires
                v <= 255,
        ;
        let ghost prev = acc;
        acc = acc + w * (v as u128);
        total = total + w;
        assert(line_sum(buf@, b, st, x as int, s as int, d as int, lo as int, i + 1) == prev + w
            * v);
        assert(total <= (i + 1 - lo) * 2 * m) by (nonlinear_arith)
            requires
                total <= (i - lo) * 2 * m + w,
                w <= 2 * m,
        ;
        i = i + 1;
    }
    assert(total <= 0x1_0000_0000 * 0x2_0000_0000) by (nonlinear_arith)
        requires
            total <= (i - lo) * 2 * m,
            i - lo <= 0x1_0000_0000,
            m < 0x1_0000_0000,
    ;
    if total == 0 {
        0
    } else {
        proof {
            lemma_line_sum_bounds(buf@, b, st, x as int, s as int, d as int, lo as int, hi as int);
            lemma_mean_fits(acc as int, total as int);
        }
        ((acc + total / 2) / total) as u8
    }
}

/// Resamples each row of an `sw` by `sh` image of 4-byte pixels to `dw`
/// pixels.
fn resample_rows(src: &Vec<u8>, sw: usize, sh: usize, dw: usize) -> (out: Vec<u8>)
    requires
        src@.len() == sw * sh * 4,
        dw <= sw <= u32::MAX,
        sh <= u32::MAX,
    ensures
        out@ == horizontal(src@, sw as int, sh as int, dw as int),
{
    // Reading the length bounds it by the address space.
    let _ = src.len();
    assert(dw * sh * 4 <= sw * sh * 4) by (nonlinear_arith)
        requires
            dw <= sw,
    ;
    assert(dw * sh <= dw * sh * 4) by (nonlinear_arith);
    let n = dw * sh * 4;
    let mut out: Vec<u8> = Vec::new();
    let mut k: usize = 0;
    while k < n
        invariant
            n == dw * sh * 4,
            src@.len() == sw * sh * 4,
            sw * sh * 4 <= usize::MAX,
            dw <= sw <= u32::MAX,
            sh <= u32::MAX,
            k <= n,
            out@.len() == k,
            forall|j: int|
                0 <= j < k ==> #[trigger] out@[j] == horizontal(
                    src@,
                    sw as int,
                    sh as int,
                    dw as int,
                )[j],
        decreases n - k,
    {
        assert(dw > 0) by (nonlinear_arith)
            requires
                k < dw * sh * 4,
                k >= 0,
        ;
        proof {
            lemma_pixel_coords(k as int, dw as int, sh as int);
        }
        let p = k / 4;
        let c = k % 4;
        let y = p / dw;
        let x = p % dw;
        assert(y * sw * 4 + c + (sw - 1) * 4 < sw * sh * 4 || sw == 0) by (nonlinear_arith)
            requires
                y < sh,
                c < 4,
        ;
        assert(y * sw * 4 <= sw * sh * 4) by (nonlinear_arith)
            requires
                y < sh,
        ;
        let v = resample_line(src, y * sw * 4 + c, 4, x, sw, dw);
        out.push(v);
        k += 1;
    }
    assert(out@ =~= horizontal(src@, sw as int, sh as int, dw as int));
    out
}

/// Resamples each column of a `dw` by `sh` image of 4-byte pixels to `dh`
/// pixels.
fn resample_columns(tmp: &Vec<u8>, dw: usize, sh: usize, dh: usize) -> (out: Vec<u8>)
    requires
        tmp@.len() == dw * sh * 4,
        dh <= sh <= u32::MAX,
        dw <= u32::MAX,
    ensures
        out@ == vertical(tmp@, dw as int, sh as int, dh as int),
{
    // Reading the length bounds it by the address space.
    let _ = tmp.len();
    assert(dw * dh * 4 <= dw * sh * 4) by (nonlinear_arith)
        requires
            dh <= sh,
    ;
    assert(dw * dh <= dw * dh * 4) by (nonlinear_arith);
    let n = dw * dh * 4;
    let mut out: Vec<u8> = Vec::new();
    let mut k: usize = 0;
    while k < n
        invariant
            n == dw * dh * 4,
            tmp@.len() == dw * sh * 4,
            dw * sh * 4 <= usize::MAX,
            dh <= sh <= u32::MAX,
            dw <= u32::MAX,
            k <= n,
            out@.len() == k,
            forall|j: int|
                0 <= j < k ==> #[trigger] out@[j] == vertical(
                    tmp@,
                    dw as int,
                    sh as int,
                    dh as int,
                )[j],
        decreases n - k,
    {
        assert(dw > 0) by (nonlinear_arith)
            requires
                k < dw * dh * 4,
                k >= 0,
        ;
        proof {
            lemma_pixel_coords(k as int, dw as int, dh as int);
        }
        let p = k / 4;
        let c = k % 4;
        let y = p / dw;
        let x = p % dw;
        assert(x * 4 + c + (sh - 1) * (dw * 4) < dw * sh * 4 || sh == 0) by (nonlinear_arith)
            requires
                x < dw,
                c < 4,
        ;
        assert(x * 4 + c <= dw * sh * 4 && dw * 4 <= dw * sh * 4) by (nonlinear_arith)
            requires
                x < dw,
                c < 4,
                y < dh,
                dh <= sh,
        ;
        let v = resample_line(tmp, x * 4 + c, dw * 4, y, sh, dh);
        out.push(v);
        k += 1;
    }
    assert(out@ =~= vertical(tmp@, dw as int, sh as int, dh as int));
    out
}

/// Resamples an `sw` by `sh` image of 4-byte pixels down to `dw` by `dh`
/// with a triangle filter, rows first, then columns.
pub fn resize_triangle(src: &Vec<u8>, sw: u32, sh: u32, dw: u32, dh: u32) -> (out: Vec<u8>)
    requires
        src@.len() == sw * sh * 4,
        dw <= sw,
        dh <= sh,
    ensures
        out@ == resized(src@, sw as int, sh as int, dw as int, dh as int),
        out@.len() == dw * dh * 4,
{
    let tmp = resample_rows(src, sw as usize, sh as usize, dw as usize);
    let out = resample_columns(&tmp, dw as usize, sh as usize, dh as usize);
    proof {
        assert(dw * dh * 4 >= 0) by (nonlinear_arith);
    }
    out
}

/// Shrinks a decoded image so that its longer side is at most `max_edge`,
/// never enlarging it, and reorders each pixel to blue, green, red, alpha.
pub fn make_thumbnail(image: &RgbaImage, max_edge: u32) -> (r: ThumbnailOutput)
    requires
        image.pixels@.len() == image.width * image.height * 4,
    ensures
        r.width == thumb_dim(
            image.width as int,
            max_of(image.width as int, image.height as int),
            max_edge as int,
        ),
        r.height == thumb_dim(
            image.height as int,
            max_of(image.width as int, image.height as int),
            max_edge as int,
        ),
        r.pixels@ == swapped(
            resized(
                image.pixels@,
                image.width as int,
                image.height as int,
                r.width as int,
                r.height as int,
            ),
        ),
        r.pixels@.len() == r.width * r.height * 4,
        r.alpha == AlphaSemantics::StraightAlpha,
{
    let (width, height) = thumbnail_size(image.width, image.height, max_edge);
    proof {
        lemma_thumbnail_bounds(image.width, image.height, max_edge);
    }
    let mut pixels = resize_triangle(&image.pixels, image.width, image.height, width, height);
    proof {
        vstd::arithmetic::div_mod::lemma_mod_multiples_basic((width * height) as int, 4);
    }
    swap_red_blue(&mut pixels);
    ThumbnailOutput { width, height, pixels, alpha: AlphaSemantics::StraightAlpha }
}

/// The thumbnail of the first frame of a session, its longer side at most
/// `max_edge`. A session that is not initialised yields `NotInitialized`;
/// otherwise the thumbnail is made exactly when the first frame renders to
/// red, green, blue, alpha pixels, and it is that frame resampled and
/// reordered to blue, green, red, alpha.
pub fn session_thumbnail(session: &JXLWICBitmapDecoder, max_edge: u32) -> (r: Result<
    ThumbnailOutput,
    CodecError,
>)
    requires
        session.wf(),
    ensures
        session.state() != SessionState::Initialized ==> r == Err::<ThumbnailOutput, CodecError>(
            CodecError::NotInitialized,
        ),
        session.state() == SessionState::Initialized ==> (r is Ok <==> (session.frame_available8(0)
            && session.format_spec() != PixelFormat::Cmyk && session.format_spec()
            != PixelFormat::Cmyka)),
        r matches Ok(t) ==> {
            let longest = max_of(session.width_spec() as int, session.height_spec() as int);
            &&& t.width == thumb_dim(session.width_spec() as int, longest, max_edge as int)
            &&& t.height == thumb_dim(session.height_spec() as int, longest, max_edge as int)
            &&& t.pixels@ == swapped(
                resized(
                    session.frame_rgba(0),
                    session.width_spec() as int,
                    session.height_spec() as int,
                    t.width as int,
                    t.height as int,
                ),
            )
            &&& t.pixels@.len() == t.width * t.height * 4
            &&& t.alpha == AlphaSemantics::StraightAlpha
        },
{
    proof {
        session.lemma_frame_count();
    }
    let image = session.render_rgba8(0)?;
    Ok(make_thumbnail(&image, max_edge))
}

} // verus!
