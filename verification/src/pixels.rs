//! Pixel work on XRGB frame buffers (row-major, one `u32` per pixel): buffer sizes,
//! copying clipped rectangles and blocks, nearest-neighbour scaling and darkening for pins
//! (darkening stands in for window opacity), and the borders and outlines drawn over
//! frames.

use crate::geometry::{PixelPoint, PixelRect};
use crate::model::{ErrorCode, PinoraError};
use crate::text::push_text;
use vstd::prelude::*;

verus! {

/// Position of pixel `(x, y)` in a buffer `w` pixels wide.
pub open spec fn idx(y: int, x: int, w: int) -> int {
    y * w + x
}

/// The source pixel that nearest-neighbour scaling from `sw`×`sh` to `dw`×`dh` puts at
/// `(x, y)`.
pub open spec fn nearest(src: Seq<u32>, sw: int, sh: int, dw: int, dh: int, y: int, x: int) -> u32 {
    src[idx(y * sh / dh, x * sw / dw, sw)]
}

proof fn lemma_index_below(y: int, x: int, w: int, h: int)
    requires
        0 <= y < h,
        0 <= x < w,
    ensures
        0 <= idx(y, x, w) < w * h,
{
    assert(y * w + x < w * h) by (nonlinear_arith)
        requires
            0 <= y < h,
            0 <= x < w,
    ;
    assert(0 <= y * w) by (nonlinear_arith)
        requires
            0 <= y,
            0 <= w,
    ;
}

proof fn lemma_index_order(yy: int, xx: int, y: int, x: int, w: int)
    requires
        0 <= xx < w,
        0 <= x,
        0 <= yy,
        yy < y || (yy == y && xx < x),
    ensures
        idx(yy, xx, w) < idx(y, x, w),
{
    if yy < y {
        assert(yy * w + w <= y * w) by (nonlinear_arith)
            requires
                yy < y,
                0 <= w,
        ;
    }
}

proof fn lemma_scaled_coordinate(y: int, sh: int, dh: int)
    requires
        0 <= y < dh,
        0 < sh,
    ensures
        0 <= y * sh / dh < sh,
{
    assert(0 <= y * sh) by (nonlinear_arith)
        requires
            0 <= y,
            0 < sh,
    ;
    assert(y * sh < dh * sh) by (nonlinear_arith)
        requires
            0 <= y < dh,
            0 < sh,
    ;
    assert(y * sh / dh < sh) by (nonlinear_arith)
        requires
            0 <= y * sh < dh * sh,
            0 < dh,
    ;
}

/// Scales `src` (`sw`×`sh`) into the first `dw`×`dh` pixels of `dst` by picking, for each
/// target pixel, the source pixel at the proportional position; the rest of `dst` is left
/// as it was.
pub fn scale_nearest(src: &[u32], sw: usize, sh: usize, dst: &mut Vec<u32>, dw: usize, dh: usize)
    requires
        src@.len() >= sw * sh,
        old(dst)@.len() >= dw * dh,
        dw > 0 && dh > 0 ==> sw > 0 && sh > 0,
        dw * sw <= usize::MAX,
        dh * sh <= usize::MAX,
    ensures
        final(dst)@.len() == old(dst)@.len(),
        forall|y: int, x: int|
            0 <= y < dh && 0 <= x < dw ==> #[trigger] final(dst)@[idx(y, x, dw as int)] == nearest(
                src@,
                sw as int,
                sh as int,
                dw as int,
                dh as int,
                y,
                x,
            ),
        forall|i: int| dw * dh <= i < final(dst)@.len() ==> #[trigger] final(dst)@[i] == old(dst)@[i],
{
    if dw == 0 || dh == 0 {
        return;
    }
    let ghost start = dst@;
    let src_len = src.len();
    let dst_len = dst.len();
    let mut y: usize = 0;
    while y < dh
        invariant
            y <= dh,
            src@.len() == src_len,
            start.len() == dst_len,
            src@.len() >= sw * sh,
            start.len() >= dw * dh,
            dw > 0 && dh > 0 && sw > 0 && sh > 0,
            dw * sw <= usize::MAX,
            dh * sh <= usize::MAX,
            dst@.len() == start.len(),
            forall|yy: int, xx: int|
                0 <= yy < y && 0 <= xx < dw ==> #[trigger] dst@[idx(yy, xx, dw as int)] == nearest(
                    src@,
                    sw as int,
                    sh as int,
                    dw as int,
                    dh as int,
                    yy,
                    xx,
                ),
            forall|i: int| idx(y as int, 0, dw as int) <= i < dst@.len() ==> #[trigger] dst@[i] == start[i],
        decreases dh - y,
    {
        proof {
            lemma_scaled_coordinate(y as int, sh as int, dh as int);
        }
        assert(y * sh <= dh * sh) by (nonlinear_arith)
            requires
                y < dh,
        ;
        let sy = y * sh / dh;
        proof {
            lemma_index_below(sy as int, 0, sw as int, sh as int);
        }
        let src_row = sy * sw;
        proof {
            lemma_index_below(y as int, 0, dw as int, dh as int);
        }
        let dst_row = y * dw;
        let mut x: usize = 0;
        while x < dw
            invariant
                y < dh,
                x <= dw,
                src@.len() == src_len,
                start.len() == dst_len,
                sy == (y * sh) / (dh as int),
                sy < sh,
                src_row == sy * sw,
                dst_row == y * dw,
                src@.len() >= sw * sh,
                start.len() >= dw * dh,
                sw > 0 && sh > 0,
                dw * sw <= usize::MAX,
                dh * sh <= usize::MAX,
                dst@.len() == start.len(),
                forall|yy: int, xx: int|
                    (0 <= yy < y && 0 <= xx < dw) || (yy == y && 0 <= xx < x) ==> #[trigger] dst@[idx(
                        yy,
                        xx,
                        dw as int,
                    )] == nearest(src@, sw as int, sh as int, dw as int, dh as int, yy, xx),
                forall|i: int| idx(y as int, x as int, dw as int) <= i < dst@.len() ==> #[trigger] dst@[i] == start[i],
            decreases dw - x,
        {
            proof {
                lemma_scaled_coordinate(x as int, sw as int, dw as int);
                lemma_index_below(y as int, x as int, dw as int, dh as int);
                lemma_index_below(sy as int, (x * sw) / (dw as int), sw as int, sh as int);
            }
            assert(x * sw <= dw * sw) by (nonlinear_arith)
                requires
                    x < dw,
            ;
            let sx = x * sw / dw;
            let k = dst_row + x;
            let ghost before = dst@;
            dst.set(k, src[src_row + sx]);
            assert forall|yy: int, xx: int|
                (0 <= yy < y && 0 <= xx < dw) || (yy == y && 0 <= xx < x + 1) implies #[trigger] dst@[idx(
                    yy,
                    xx,
                    dw as int,
                )] == nearest(src@, sw as int, sh as int, dw as int, dh as int, yy, xx) by {
                if yy == y && xx == x {
                } else {
                    lemma_index_order(yy, xx, y as int, x as int, dw as int);
                    lemma_index_below(yy, xx, dw as int, dh as int);
                    assert(dst@[idx(yy, xx, dw as int)] == before[idx(yy, xx, dw as int)]);
                }
            }
            x += 1;
        }
        y += 1;
        assert(idx(y as int, 0, dw as int) == idx((y - 1) as int, dw as int, dw as int)) by (nonlinear_arith);
    }
    assert forall|i: int| dw * dh <= i < dst@.len() implies #[trigger] dst@[i] == start[i] by {
        assert(idx(dh as int, 0, dw as int) == dw * dh) by (nonlinear_arith);
    }
}

/// Whether position `i` of a `w`×`h` buffer lies on its one-pixel border.
pub open spec fn on_border(i: int, w: int, h: int) -> bool {
    i < w || i >= (h - 1) * w || i % (w as int) == 0 || i % (w as int) == w - 1
}

/// Paints the one-pixel border of a `w`×`h` buffer with `color`; nothing else changes.
pub fn draw_border(buf: &mut Vec<u32>, w: usize, h: usize, color: u32)
    requires
        old(buf)@.len() >= w * h,
    ensures
        final(buf)@.len() == old(buf)@.len(),
        forall|i: int|
            0 <= i < final(buf)@.len() ==> #[trigger] final(buf)@[i] == if w > 0 && h > 0 && i < w * h
                && on_border(i, w as int, h as int) {
                color
            } else {
                old(buf)@[i]
            },
{
    if w == 0 || h == 0 {
        return;
    }
    let ghost start = buf@;
    let len = buf.len();
    assert((h - 1) * w + w == w * h) by (nonlinear_arith);
    let last_row: usize = (h - 1) * w;
    let mut x: usize = 0;
    while x < w
        invariant
            0 < w,
            0 < h,
            x <= w,
            last_row == (h - 1) * w,
            last_row + w == w * h,
            start.len() >= w * h,
            start.len() == len,
            buf@.len() == start.len(),
            forall|i: int|
                0 <= i < buf@.len() ==> #[trigger] buf@[i] == if i < x || (last_row <= i < last_row
                    + x) {
                    color
                } else {
                    start[i]
                },
        decreases w - x,
    {
        buf.set(x, color);
        buf.set(last_row + x, color);
        x += 1;
    }
    let mut y: usize = 0;
    while y < h
        invariant
            0 < w,
            0 < h,
            y <= h,
            last_row == (h - 1) * w,
            last_row + w == w * h,
            start.len() >= w * h,
            start.len() == len,
            buf@.len() == start.len(),
            forall|i: int|
                0 <= i < buf@.len() ==> #[trigger] buf@[i] == if i < w || (last_row <= i < last_row
                    + w) || (i < y * w && (i % (w as int) == 0 || i % (w as int) == w - 1)) {
                    color
                } else {
                    start[i]
                },
        decreases h - y,
    {
        assert(y * w + w <= w * h) by (nonlinear_arith)
            requires
                y < h,
                0 < w,
        ;
        let left = y * w;
        let right = left + (w - 1);
        let ghost before = buf@;
        buf.set(left, color);
        buf.set(right, color);
        assert forall|i: int| 0 <= i < buf@.len() implies #[trigger] buf@[i] == if i < w || (last_row
            <= i < last_row + w) || (i < (y + 1) * w && (i % (w as int) == 0 || i % (w as int) == w - 1)) {
            color
        } else {
            start[i]
        } by {
            assert((left as int) % (w as int) == 0) by (nonlinear_arith)
                requires
                    left == y * w,
                    0 < w,
            ;
            assert((right as int) % (w as int) == w - 1) by (nonlinear_arith)
                requires
                    right == y * w + (w - 1),
                    0 < w,
            ;
            assert((y + 1) * w == y * w + w) by (nonlinear_arith);
            if i != left && i != right {
                if y * w <= i < (y + 1) * w {
                    assert(i % (w as int) != 0 && i % (w as int) != w - 1) by (nonlinear_arith)
                        requires
                            y * w <= i < y * w + w,
                            i != y * w,
                            i != y * w + (w - 1),
                            0 < w,
                    ;
                }
            }
        }
        y += 1;
    }
    assert forall|i: int| 0 <= i < buf@.len() implies #[trigger] buf@[i] == if w > 0 && h > 0 && i
        < w * h && on_border(i, w as int, h as int) {
        color
    } else {
        start[i]
    } by {
        if i < w * h && !(i < w || (last_row <= i < last_row + w)) {
            assert(i < h * w);
        }
    }
}

/// A pixel darkened by `factor / 256`, channel by channel (the unused top byte is cleared).
pub open spec fn darkened(px: u32, factor: u32) -> u32 {
    let r = (px as int / 65536) % 256;
    let g = (px as int / 256) % 256;
    let b = px as int % 256;
    ((r * factor / 256) * 65536 + (g * factor / 256) * 256 + b * factor / 256) as u32
}

fn darken_pixel(px: u32, factor: u32) -> (d: u32)
    requires
        factor <= 256,
    ensures
        d == darkened(px, factor),
{
    let r = (px >> 16) & 0xff;
    let g = (px >> 8) & 0xff;
    let b = px & 0xff;
    assert(r == (px as int / 65536) % 256) by (bit_vector)
        requires
            r == (px >> 16) & 0xff,
    ;
    assert(g == (px as int / 256) % 256) by (bit_vector)
        requires
            g == (px >> 8) & 0xff,
    ;
    assert(b == px as int % 256) by (bit_vector)
        requires
            b == px & 0xff,
    ;
    assert(r * factor <= 255 * 256) by (nonlinear_arith)
        requires
            r <= 255,
            factor <= 256,
    ;
    assert(g * factor <= 255 * 256) by (nonlinear_arith)
        requires
            g <= 255,
            factor <= 256,
    ;
    assert(b * factor <= 255 * 256) by (nonlinear_arith)
        requires
            b <= 255,
            factor <= 256,
    ;
    let dr = r * factor / 256;
    let dg = g * factor / 256;
    let db = b * factor / 256;
    let out = (dr << 16) | (dg << 8) | db;
    assert(out == dr * 65536 + dg * 256 + db) by (bit_vector)
        requires
            dr <= 255,
            dg <= 255,
            db <= 255,
            out == (dr << 16) | (dg << 8) | db,
    ;
    out
}

/// Darkens every pixel by `factor / 256`, which stands in for a pin's opacity where windows
/// cannot be translucent; a factor of 256 leaves the buffer untouched.
pub fn darken_pixels(buf: &mut Vec<u32>, factor: u32)
    requires
        factor <= 256,
    ensures
        factor == 256 ==> final(buf)@ == old(buf)@,
        factor < 256 ==> final(buf)@ == old(buf)@.map_values(|px: u32| darkened(px, factor)),
{
    if factor == 256 {
        return;
    }
    let ghost start = buf@;
    let mut i: usize = 0;
    while i < buf.len()
        invariant
            factor < 256,
            i <= buf@.len(),
            buf@.len() == start.len(),
            forall|k: int| 0 <= k < i ==> #[trigger] buf@[k] == darkened(start[k], factor),
            forall|k: int| i <= k < buf@.len() ==> #[trigger] buf@[k] == start[k],
        decreases buf@.len() - i,
    {
        let d = darken_pixel(buf[i], factor);
        buf.set(i, d);
        i += 1;
    }
    assert(buf@ =~= start.map_values(|px: u32| darkened(px, factor)));
}

/// The number of pixels of a `width`×`height` buffer, or an invalid-state error naming
/// `subject` when that number does not fit in `usize`.
pub fn pixel_count(width: u32, height: u32, subject: &str) -> (r: Result<usize, PinoraError>)
    ensures
        width * height <= usize::MAX ==> r == Ok::<usize, PinoraError>((width * height) as usize),
        width * height > usize::MAX ==> (r matches Err(e) && e.code == ErrorCode::InvalidState
            && e.message@ == subject@ + " is too large"@),
{
    let w = width as usize;
    let h = height as usize;
    match w.checked_mul(h) {
        Some(n) => Ok(n),
        None => {
            let mut message = String::new();
            push_text(&mut message, subject);
            push_text(&mut message, " is too large");
            Err(PinoraError { code: ErrorCode::InvalidState, message })
        },
    }
}

/// The first column (or row) that a rectangle edge starting at `v` covers.
pub open spec fn clip_low(v: int) -> int {
    if v < 0 {
        0
    } else {
        v
    }
}

/// The column (or row) bound that an exclusive edge `edge` leaves inside `limit`; an edge
/// left of the buffer wraps past every column when taken as an unsigned index, so the
/// bound is then the limit itself.
pub open spec fn clip_high(edge: int, limit: int) -> int {
    if edge < 0 || edge > limit {
        limit
    } else {
        edge
    }
}

/// Whether buffer position `i` (rows of `stride` pixels) lies inside the columns
/// `x0..x1` and rows `y0..y1`.
pub open spec fn in_block(i: int, stride: int, x0: int, x1: int, y0: int, y1: int) -> bool {
    &&& y0 <= i / stride < y1
    &&& x0 <= i % stride < x1
}

/// The part of `rect` that `blit_rect` copies in a buffer `stride` wide and `height` high,
/// as `(x0, x1, y0, y1)`.
pub open spec fn blit_bounds(rect: PixelRect, stride: int, height: int) -> (int, int, int, int) {
    (
        clip_low(rect.origin.x as int),
        clip_high(rect.spec_right(), stride),
        clip_low(rect.origin.y as int),
        clip_high(rect.spec_bottom(), height),
    )
}

fn usize_edge(edge: i32, limit: usize) -> (r: usize)
    ensures
        r == clip_high(edge as int, limit as int),
{
    if edge < 0 {
        limit
    } else {
        let e = edge as usize;
        if e > limit {
            limit
        } else {
            e
        }
    }
}

proof fn lemma_row_col(i: int, stride: int, y: int, x: int)
    requires
        0 <= x < stride,
        i == y * stride + x,
    ensures
        i / stride == y,
        i % stride == x,
{
    vstd::arithmetic::div_mod::lemma_fundamental_div_mod_converse(i, stride, y, x);
}

/// Copies the pixels of `rect`, clipped to a `stride`×`height` buffer, from `src` into
/// `dst`; every other pixel of `dst` keeps its value.
pub fn blit_rect(dst: &mut Vec<u32>, src: &[u32], stride: usize, height: usize, rect: PixelRect)
    requires
        ({
            let (x0, x1, y0, y1) = blit_bounds(rect, stride as int, height as int);
            x0 < x1 && y0 < y1 ==> (y1 - 1) * stride + x1 <= old(dst)@.len() && (y1 - 1) * stride
                + x1 <= src@.len()
        }),
    ensures
        final(dst)@.len() == old(dst)@.len(),
        ({
            let (x0, x1, y0, y1) = blit_bounds(rect, stride as int, height as int);
            forall|i: int|
                0 <= i < final(dst)@.len() ==> #[trigger] final(dst)@[i] == if x0 < x1 && y0 < y1
                    && in_block(i, stride as int, x0, x1, y0, y1) {
                    src@[i]
                } else {
                    old(dst)@[i]
                }
        }),
{
    let x0: usize = if rect.origin.x < 0 {
        0
    } else {
        rect.origin.x as usize
    };
    let y0: usize = if rect.origin.y < 0 {
        0
    } else {
        rect.origin.y as usize
    };
    let x1 = usize_edge(rect.right(), stride);
    let y1 = usize_edge(rect.bottom(), height);
    if x1 <= x0 || y1 <= y0 {
        return;
    }
    let ghost start = dst@;
    let ghost s = stride as int;
    let dst_len = dst.len();
    let mut y = y0;
    while y < y1
        invariant
            0 <= x0 < x1 <= stride,
            start.len() == dst_len,
            y0 <= y <= y1,
            s == stride,
            (y1 - 1) * s + x1 <= start.len(),
            (y1 - 1) * s + x1 <= src@.len(),
            dst@.len() == start.len(),
            forall|i: int|
                0 <= i < dst@.len() ==> #[trigger] dst@[i] == if in_block(i, s, x0 as int, x1 as int, y0 as int, y as int) {
                    src@[i]
                } else {
                    start[i]
                },
        decreases y1 - y,
    {
        assert(y * s + x1 <= (y1 - 1) * s + x1) by (nonlinear_arith)
            requires
                y < y1,
                0 < s,
        ;
        let row = y * stride;
        let mut x = x0;
        while x < x1
            invariant
                0 <= x0 <= x <= x1 <= stride,
                y0 <= y < y1,
                s == stride,
                row == y * s,
                start.len() == dst_len,
                row + x1 <= start.len(),
                row + x1 <= src@.len(),
                dst@.len() == start.len(),
                forall|i: int|
                    0 <= i < dst@.len() ==> #[trigger] dst@[i] == if in_block(i, s, x0 as int, x1 as int, y0 as int, y as int) || (i / s == y && x0 <= i % s < x) {
                        src@[i]
                    } else {
                        start[i]
                    },
            decreases x1 - x,
        {
            let k = row + x;
            proof {
                lemma_row_col(k as int, s, y as int, x as int);
            }
            let ghost before = dst@;
            dst.set(k, src[k]);
            assert forall|i: int| 0 <= i < dst@.len() implies #[trigger] dst@[i] == if in_block(i, s, x0 as int, x1 as int, y0 as int, y as int) || (i / s == y && x0 <= i % s < x + 1) {
                src@[i]
            } else {
                start[i]
            } by {
                if i != k {
                    assert(dst@[i] == before[i]);
                    if i / s == y && i % s == x {
                        vstd::arithmetic::div_mod::lemma_fundamental_div_mod(i, s);
                        assert(i == s * (i / s) + i % s);
                        assert(s * y == y * s) by (nonlinear_arith);
                    }
                }
            }
            x += 1;
        }
        assert forall|i: int| 0 <= i < dst@.len() implies #[trigger] dst@[i] == if in_block(i, s, x0 as int, x1 as int, y0 as int, (y + 1) as int) {
            src@[i]
        } else {
            start[i]
        } by {}
        y += 1;
    }
}

/// A pin's base frame, rendered at one size and one darkening factor.
#[derive(Debug, Clone)]
pub struct PinRenderCache {
    pub width: u32,
    pub height: u32,
    pub opacity_factor: u32,
    pub pixels: Vec<u32>,
}

impl PinRenderCache {
    /// Whether this frame was rendered for the given size and darkening factor.
    pub fn matches(&self, width: u32, height: u32, opacity_factor: u32) -> (b: bool)
        ensures
            b == (self.width == width && self.height == height && self.opacity_factor
                == opacity_factor),
    {
        self.width == width && self.height == height && self.opacity_factor == opacity_factor
    }
}

/// The pixels of a pin's base frame before darkening: the source itself at its own size,
/// else the source scaled to `width`×`height`.
pub open spec fn pin_frame(
    source: Seq<u32>,
    sw: int,
    sh: int,
    width: int,
    height: int,
    y: int,
    x: int,
) -> u32 {
    if sw == width && sh == height {
        source[idx(y, x, width)]
    } else {
        nearest(source, sw, sh, width, height, y, x)
    }
}

/// Renders a pin's base frame: the source (`source_width`×`source_height`) at the window
/// size, darkened by `opacity_factor / 256`. Refused where a buffer size does not fit in
/// `usize` or the source does not hold exactly that many pixels.
pub fn build_pin_render_cache(
    source: &[u32],
    source_width: u32,
    source_height: u32,
    width: u32,
    height: u32,
    opacity_factor: u32,
) -> (r: Result<PinRenderCache, PinoraError>)
    requires
        opacity_factor <= 256,
        width * source_width <= usize::MAX,
        height * source_height <= usize::MAX,
        source@.len() == source_width * source_height && width > 0 && height > 0 && !(source_width
            == width && source_height == height) ==> source_width > 0 && source_height > 0,
    ensures
        source_width * source_height > usize::MAX ==> (r matches Err(e) && e.code
            == ErrorCode::InvalidState && e.message@ == "pin source"@ + " is too large"@),
        source_width * source_height <= usize::MAX && source@.len() != source_width * source_height
            ==> (r matches Err(e) && e.code == ErrorCode::InvalidState && e.message@
            == "pin source pixels do not match image dimensions"@),
        source_width * source_height <= usize::MAX && source@.len() == source_width * source_height
            && width * height > usize::MAX ==> (r matches Err(e) && e.code == ErrorCode::InvalidState
            && e.message@ == "pin render target"@ + " is too large"@),
        source_width * source_height <= usize::MAX && source@.len() == source_width * source_height
            && width * height <= usize::MAX ==> (r matches Ok(
            c,
        ) && {
            &&& c.width == width
            &&& c.height == height
            &&& c.opacity_factor == opacity_factor
            &&& c.pixels@.len() == width * height
            &&& forall|y: int, x: int|
                0 <= y < height && 0 <= x < width ==> #[trigger] c.pixels@[idx(y, x, width as int)]
                    == if opacity_factor == 256 {
                    pin_frame(
                        source@,
                        source_width as int,
                        source_height as int,
                        width as int,
                        height as int,
                        y,
                        x,
                    )
                } else {
                    darkened(
                        pin_frame(
                            source@,
                            source_width as int,
                            source_height as int,
                            width as int,
                            height as int,
                            y,
                            x,
                        ),
                        opacity_factor,
                    )
                }
        }),
{
    let source_len = match pixel_count(source_width, source_height, "pin source") {
        Ok(n) => n,
        Err(e) => return Err(e),
    };
    if source.len() != source_len {
        return Err(
            PinoraError::new(ErrorCode::InvalidState, "pin source pixels do not match image dimensions"),
        );
    }
    let target_len = match pixel_count(width, height, "pin render target") {
        Ok(n) => n,
        Err(e) => return Err(e),
    };
    let sw = source_width as usize;
    let sh = source_height as usize;
    let w = width as usize;
    let h = height as usize;
    let mut pixels: Vec<u32> = vec![0; target_len];
    if sw == w && sh == h {
        let mut i: usize = 0;
        while i < target_len
            invariant
                target_len == source@.len(),
                pixels@.len() == target_len,
                i <= target_len,
                forall|k: int| 0 <= k < i ==> #[trigger] pixels@[k] == source@[k],
            decreases target_len - i,
        {
            pixels.set(i, source[i]);
            i += 1;
        }
    } else {
        scale_nearest(source, sw, sh, &mut pixels, w, h);
    }
    let ghost frame = pixels@;
    assert forall|y: int, x: int| 0 <= y < height && 0 <= x < width implies #[trigger] frame[idx(
        y,
        x,
        width as int,
    )] == pin_frame(
        source@,
        source_width as int,
        source_height as int,
        width as int,
        height as int,
        y,
        x,
    ) by {
        lemma_index_below(y, x, width as int, height as int);
    }
    darken_pixels(&mut pixels, opacity_factor);
    assert forall|y: int, x: int| 0 <= y < height && 0 <= x < width implies #[trigger] pixels@[idx(
        y,
        x,
        width as int,
    )] == if opacity_factor == 256 {
        pin_frame(
            source@,
            source_width as int,
            source_height as int,
            width as int,
            height as int,
            y,
            x,
        )
    } else {
        darkened(
            pin_frame(
                source@,
                source_width as int,
                source_height as int,
                width as int,
                height as int,
                y,
                x,
            ),
            opacity_factor,
        )
    } by {
        lemma_index_below(y, x, width as int, height as int);
        assert(frame[idx(y, x, width as int)] == pin_frame(
            source@,
            source_width as int,
            source_height as int,
            width as int,
            height as int,
            y,
            x,
        ));
    }
    Ok(PinRenderCache { width, height, opacity_factor, pixels })
}

pub open spec fn smaller(a: int, b: int) -> int {
    if a < b {
        a
    } else {
        b
    }
}

/// The part of a `sw`×`sh` block that `blit_xrgb_block` copies into a frame `stride` wide
/// and `height` high at the clipped corner `(x0, y0)`: `(rows, columns)`.
pub open spec fn block_extent(
    x0: int,
    y0: int,
    rw: int,
    rh: int,
    sw: int,
    sh: int,
    stride: int,
    height: int,
) -> (int, int) {
    let rows = if y0 >= height {
        0
    } else {
        smaller(smaller(rh, sh), height - y0)
    };
    let cols = if x0 >= stride {
        0
    } else {
        smaller(smaller(rw, sw), stride - x0)
    };
    (rows, cols)
}

/// Copies the block `src` (`sw`×`sh`, row-major) into `frame` at `rect`'s corner (clipped
/// at zero), at most `rect`'s size and no further than the frame's edges. Nothing is copied
/// from a block that is empty or holds fewer than `sw * sh` pixels.
pub fn blit_xrgb_block(
    frame: &mut Vec<u32>,
    stride: usize,
    height: usize,
    rect: PixelRect,
    src: &[u32],
    sw: usize,
    sh: usize,
)
    requires
        sw * sh <= usize::MAX,
        ({
            let x0 = clip_low(rect.origin.x as int);
            let y0 = clip_low(rect.origin.y as int);
            let (rows, cols) = block_extent(
                x0,
                y0,
                rect.size.width as int,
                rect.size.height as int,
                sw as int,
                sh as int,
                stride as int,
                height as int,
            );
            sw > 0 && sh > 0 && src@.len() >= sw * sh && rows > 0 && cols > 0 ==> (y0 + rows - 1)
                * stride + x0 + cols <= old(frame)@.len()
        }),
    ensures
        final(frame)@.len() == old(frame)@.len(),
        ({
            let x0 = clip_low(rect.origin.x as int);
            let y0 = clip_low(rect.origin.y as int);
            let (rows, cols) = block_extent(
                x0,
                y0,
                rect.size.width as int,
                rect.size.height as int,
                sw as int,
                sh as int,
                stride as int,
                height as int,
            );
            let copies = sw > 0 && sh > 0 && src@.len() >= sw * sh;
            forall|i: int|
                0 <= i < final(frame)@.len() ==> #[trigger] final(frame)@[i] == if copies
                    && in_block(i, stride as int, x0, x0 + cols, y0, y0 + rows) {
                    src@[(i / (stride as int) - y0) * sw + (i % (stride as int) - x0)]
                } else {
                    old(frame)@[i]
                }
        }),
{
    let x0: usize = if rect.origin.x < 0 {
        0
    } else {
        rect.origin.x as usize
    };
    let y0: usize = if rect.origin.y < 0 {
        0
    } else {
        rect.origin.y as usize
    };
    let rw = rect.size.width as usize;
    let rh = rect.size.height as usize;
    if sw == 0 || sh == 0 || src.len() < sw * sh {
        return;
    }
    let rows: usize = if y0 >= height {
        0
    } else {
        let a = if rh < sh {
            rh
        } else {
            sh
        };
        if a < height - y0 {
            a
        } else {
            height - y0
        }
    };
    let cols: usize = if x0 >= stride {
        0
    } else {
        let a = if rw < sw {
            rw
        } else {
            sw
        };
        if a < stride - x0 {
            a
        } else {
            stride - x0
        }
    };
    if rows == 0 || cols == 0 {
        return;
    }
    let ghost start = frame@;
    let ghost s = stride as int;
    let frame_len = frame.len();
    let src_len = src.len();
    let mut row: usize = 0;
    while row < rows
        invariant
            0 < cols <= sw,
            0 < rows <= sh,
            x0 + cols <= stride,
            y0 + rows <= height,
            s == stride,
            sw * sh <= src_len,
            src_len == src@.len(),
            (y0 + rows - 1) * s + x0 + cols <= start.len(),
            start.len() == frame_len,
            frame@.len() == frame_len,
            row <= rows,
            forall|i: int|
                0 <= i < frame@.len() ==> #[trigger] frame@[i] == if in_block(i, s, x0 as int, (x0 + cols) as int, y0 as int, (y0 + row) as int) {
                    src@[(i / s - y0) * sw + (i % s - x0)]
                } else {
                    start[i]
                },
        decreases rows - row,
    {
        let dy = y0 + row;
        assert(dy * s + x0 + cols <= (y0 + rows - 1) * s + x0 + cols) by (nonlinear_arith)
            requires
                dy <= y0 + rows - 1,
                0 < s,
        ;
        assert(row * sw + cols <= sw * sh) by (nonlinear_arith)
            requires
                row < sh,
                cols <= sw,
        ;
        let dst = dy * stride + x0;
        let src_i = row * sw;
        let mut c: usize = 0;
        while c < cols
            invariant
                0 < cols <= sw,
                x0 + cols <= stride,
                row < rows,
                dy == y0 + row,
                s == stride,
                dst == dy * s + x0,
                src_i == row * sw,
                dst + cols <= frame_len,
                src_i + cols <= src@.len(),
                src_len == src@.len(),
                frame@.len() == frame_len,
                start.len() == frame_len,
                c <= cols,
                forall|i: int|
                    0 <= i < frame@.len() ==> #[trigger] frame@[i] == if in_block(i, s, x0 as int, (x0 + cols) as int, y0 as int, (y0 + row) as int) || (i / s == dy && x0 <= i % s < x0 + c) {
                        src@[(i / s - y0) * sw + (i % s - x0)]
                    } else {
                        start[i]
                    },
            decreases cols - c,
        {
            let k = dst + c;
            proof {
                lemma_row_col(k as int, s, dy as int, (x0 + c) as int);
            }
            let ghost before = frame@;
            frame.set(k, src[src_i + c]);
            assert forall|i: int| 0 <= i < frame@.len() implies #[trigger] frame@[i] == if in_block(i, s, x0 as int, (x0 + cols) as int, y0 as int, (y0 + row) as int) || (i / s == dy && x0 <= i % s < x0 + c + 1) {
                src@[(i / s - y0) * sw + (i % s - x0)]
            } else {
                start[i]
            } by {
                if i != k {
                    assert(frame@[i] == before[i]);
                    if i / s == dy && i % s == x0 + c {
                        vstd::arithmetic::div_mod::lemma_fundamental_div_mod(i, s);
                        assert(s * dy == dy * s) by (nonlinear_arith);
                    }
                }
            }
            c += 1;
        }
        row += 1;
    }
}

/// `v` clamped into `0..=hi`.
pub open spec fn clamp_index(v: int, hi: int) -> int {
    if v < 0 {
        0
    } else if v > hi {
        hi
    } else {
        v
    }
}

/// Whether buffer position `i` (rows of `stride` pixels) lies on the outline of the box with
/// corners `(x0, y0)` and `(x1, y1)`, both included.
pub open spec fn on_outline(i: int, stride: int, x0: int, x1: int, y0: int, y1: int) -> bool {
    let r = i / stride;
    let c = i % stride;
    ||| (r == y0 || r == y1) && x0 <= c <= x1
    ||| (c == x0 || c == x1) && y0 <= r <= y1
}

/// The corners `(x0, x1, y0, y1)` of an outline from `from` to `to`, clamped into a
/// `stride`×`height` buffer.
pub open spec fn outline_corners(from: PixelPoint, to: PixelPoint, stride: int, height: int) -> (
    int,
    int,
    int,
    int,
) {
    (
        clamp_index(from.x as int, stride - 1),
        clamp_index(to.x as int, stride - 1),
        clamp_index(from.y as int, height - 1),
        clamp_index(to.y as int, height - 1),
    )
}

fn clamp_to(v: i32, hi: usize) -> (r: usize)
    requires
        hi <= i32::MAX,
    ensures
        r == clamp_index(v as int, hi as int),
{
    if v < 0 {
        0
    } else if v as usize > hi {
        hi
    } else {
        v as usize
    }
}

/// Draws the one-pixel outline of the box from `from` to `to` (corners clamped into the
/// buffer); nothing is drawn into an empty buffer or for corners given in reverse order.
pub fn draw_rect_outline_xrgb(
    buf: &mut Vec<u32>,
    stride: usize,
    height: usize,
    from: PixelPoint,
    to: PixelPoint,
    color: u32,
)
    requires
        stride <= i32::MAX,
        height <= i32::MAX,
        ({
            let (x0, x1, y0, y1) = outline_corners(from, to, stride as int, height as int);
            stride > 0 && height > 0 && x0 <= x1 && y0 <= y1 ==> y1 * stride + x1 < old(buf)@.len()
        }),
    ensures
        final(buf)@.len() == old(buf)@.len(),
        ({
            let (x0, x1, y0, y1) = outline_corners(from, to, stride as int, height as int);
            forall|i: int|
                0 <= i < final(buf)@.len() ==> #[trigger] final(buf)@[i] == if stride > 0 && height > 0
                    && x0 <= x1 && y0 <= y1 && on_outline(i, stride as int, x0, x1, y0, y1) {
                    color
                } else {
                    old(buf)@[i]
                }
        }),
{
    if stride == 0 || height == 0 {
        return;
    }
    let x0 = clamp_to(from.x, stride - 1);
    let x1 = clamp_to(to.x, stride - 1);
    let y0 = clamp_to(from.y, height - 1);
    let y1 = clamp_to(to.y, height - 1);
    if x1 < x0 || y1 < y0 {
        return;
    }
    let ghost start = buf@;
    let ghost s = stride as int;
    let len = buf.len();
    assert(y0 * s + x1 <= y1 * s + x1) by (nonlinear_arith)
        requires
            y0 <= y1,
            0 < s,
    ;
    let top = y0 * stride;
    let bottom = y1 * stride;
    let mut x = x0;
    while x <= x1
        invariant
            x0 <= x <= x1 + 1,
            x1 < stride,
            y0 <= y1 < height,
            s == stride,
            top == y0 * s,
            bottom == y1 * s,
            top + x1 <= bottom + x1,
            bottom + x1 < len,
            start.len() == len,
            buf@.len() == len,
            forall|i: int|
                0 <= i < buf@.len() ==> #[trigger] buf@[i] == if (i / s == y0 || i / s == y1) && x0
                    <= i % s < x {
                    color
                } else {
                    start[i]
                },
        decreases x1 + 1 - x,
    {
        proof {
            lemma_row_col((top + x) as int, s, y0 as int, x as int);
            lemma_row_col((bottom + x) as int, s, y1 as int, x as int);
        }
        let ghost before = buf@;
        buf.set(top + x, color);
        buf.set(bottom + x, color);
        assert forall|i: int| 0 <= i < buf@.len() implies #[trigger] buf@[i] == if (i / s == y0 || i
            / s == y1) && x0 <= i % s < x + 1 {
            color
        } else {
            start[i]
        } by {
            if i != top + x && i != bottom + x {
                assert(buf@[i] == before[i]);
                if (i / s == y0 || i / s == y1) && i % s == x {
                    vstd::arithmetic::div_mod::lemma_fundamental_div_mod(i, s);
                    assert(s * y0 == y0 * s) by (nonlinear_arith);
                    assert(s * y1 == y1 * s) by (nonlinear_arith);
                }
            }
        }
        x += 1;
    }
    let mut y = y0;
    while y <= y1
        invariant
            y0 <= y <= y1 + 1,
            x0 <= x1 < stride,
            y0 <= y1 < height,
            s == stride,
            bottom == y1 * s,
            bottom + x1 < len,
            start.len() == len,
            buf@.len() == len,
            forall|i: int|
                0 <= i < buf@.len() ==> #[trigger] buf@[i] == if ((i / s == y0 || i / s == y1) && x0
                    <= i % s <= x1) || ((i % s == x0 || i % s == x1) && y0 <= i / s < y) {
                    color
                } else {
                    start[i]
                },
        decreases y1 + 1 - y,
    {
        assert(y * s + x1 <= y1 * s + x1) by (nonlinear_arith)
            requires
                y <= y1,
                0 < s,
        ;
        let row = y * stride;
        proof {
            lemma_row_col((row + x0) as int, s, y as int, x0 as int);
            lemma_row_col((row + x1) as int, s, y as int, x1 as int);
        }
        let ghost before = buf@;
        buf.set(row + x0, color);
        buf.set(row + x1, color);
        assert forall|i: int| 0 <= i < buf@.len() implies #[trigger] buf@[i] == if ((i / s == y0
            || i / s == y1) && x0 <= i % s <= x1) || ((i % s == x0 || i % s == x1) && y0 <= i / s
            < y + 1) {
            color
        } else {
            start[i]
        } by {
            if i != row + x0 && i != row + x1 {
                assert(buf@[i] == before[i]);
                if (i % s == x0 || i % s == x1) && i / s == y {
                    vstd::arithmetic::div_mod::lemma_fundamental_div_mod(i, s);
                    assert(s * y == y * s) by (nonlinear_arith);
                }
            }
        }
        y += 1;
    }
}

/// `v`, or zero where it is negative.
pub open spec fn at_least_zero(v: int) -> int {
    if v < 0 {
        0
    } else {
        v
    }
}

pub open spec fn in_row_segment(i: int, stride: int, row: int, x0: int, x1: int) -> bool {
    i / stride == row && x0 <= i % stride < x1
}

pub open spec fn in_column_segment(i: int, stride: int, column: int, y0: int, y1: int) -> bool {
    i % stride == column && y0 <= i / stride < y1
}

/// Whether `draw_rect_border` paints position `i` for the clipped box `x0..x1`, `y0..y1` of
/// a `stride`×`height` buffer: two rows at the top and at the bottom across the box, two
/// columns at the left and at the right down the box. The inner row or column is skipped
/// where it would leave the buffer or, at the bottom, pass the top; it is not held inside
/// the box otherwise.
pub open spec fn border_painted(i: int, stride: int, height: int, x0: int, x1: int, y0: int, y1: int) -> bool {
    let low_row = at_least_zero(y1 - 2);
    let right_inner = at_least_zero(x1 - 2);
    ||| in_row_segment(i, stride, y0, x0, x1)
    ||| in_row_segment(i, stride, y1 - 1, x0, x1)
    ||| in_column_segment(i, stride, x0, y0, y1)
    ||| in_column_segment(i, stride, x1 - 1, y0, y1)
    ||| y0 + 1 < height && in_row_segment(i, stride, y0 + 1, x0, x1)
    ||| low_row < height && low_row >= y0 && in_row_segment(i, stride, low_row, x0, x1)
    ||| x0 + 1 < stride && in_column_segment(i, stride, x0 + 1, y0, y1)
    ||| in_column_segment(i, stride, right_inner, y0, y1)
}

fn paint_row(buf: &mut Vec<u32>, stride: usize, row: usize, x0: usize, x1: usize, color: u32)
    requires
        x0 < x1 <= stride,
        row * stride + x1 <= old(buf)@.len(),
    ensures
        final(buf)@.len() == old(buf)@.len(),
        forall|i: int|
            0 <= i < final(buf)@.len() ==> #[trigger] final(buf)@[i] == if in_row_segment(
                i,
                stride as int,
                row as int,
                x0 as int,
                x1 as int,
            ) {
                color
            } else {
                old(buf)@[i]
            },
{
    let ghost start = buf@;
    let ghost s = stride as int;
    let len = buf.len();
    let base = row * stride;
    let mut x = x0;
    while x < x1
        invariant
            x0 <= x <= x1 <= stride,
            s == stride,
            base == row * s,
            base + x1 <= len,
            start.len() == len,
            buf@.len() == len,
            forall|i: int|
                0 <= i < buf@.len() ==> #[trigger] buf@[i] == if in_row_segment(i, s, row as int, x0 as int, x as int) {
                    color
                } else {
                    start[i]
                },
        decreases x1 - x,
    {
        proof {
            lemma_row_col((base + x) as int, s, row as int, x as int);
        }
        let ghost before = buf@;
        buf.set(base + x, color);
        assert forall|i: int| 0 <= i < buf@.len() implies #[trigger] buf@[i] == if in_row_segment(i, s, row as int, x0 as int, x + 1) {
            color
        } else {
            start[i]
        } by {
            if i != base + x {
                assert(buf@[i] == before[i]);
                if i / s == row && i % s == x {
                    vstd::arithmetic::div_mod::lemma_fundamental_div_mod(i, s);
                    assert(s * row == row * s) by (nonlinear_arith);
                }
            }
        }
        x += 1;
    }
}

fn paint_column(buf: &mut Vec<u32>, stride: usize, column: usize, y0: usize, y1: usize, color: u32)
    requires
        column < stride,
        y0 < y1,
        (y1 - 1) * stride + column < old(buf)@.len(),
    ensures
        final(buf)@.len() == old(buf)@.len(),
        forall|i: int|
            0 <= i < final(buf)@.len() ==> #[trigger] final(buf)@[i] == if in_column_segment(
                i,
                stride as int,
                column as int,
                y0 as int,
                y1 as int,
            ) {
                color
            } else {
                old(buf)@[i]
            },
{
    let ghost start = buf@;
    let ghost s = stride as int;
    let len = buf.len();
    let mut y = y0;
    while y < y1
        invariant
            y0 <= y <= y1,
            column < stride,
            s == stride,
            (y1 - 1) * s + column < len,
            start.len() == len,
            buf@.len() == len,
            forall|i: int|
                0 <= i < buf@.len() ==> #[trigger] buf@[i] == if in_column_segment(i, s, column as int, y0 as int, y as int) {
                    color
                } else {
                    start[i]
                },
        decreases y1 - y,
    {
        assert(y * s + column <= (y1 - 1) * s + column) by (nonlinear_arith)
            requires
                y <= y1 - 1,
                0 < s,
        ;
        let k = y * stride + column;
        proof {
            lemma_row_col(k as int, s, y as int, column as int);
        }
        let ghost before = buf@;
        buf.set(k, color);
        assert forall|i: int| 0 <= i < buf@.len() implies #[trigger] buf@[i] == if in_column_segment(i, s, column as int, y0 as int, y + 1) {
            color
        } else {
            start[i]
        } by {
            if i != k {
                assert(buf@[i] == before[i]);
                if i % s == column && i / s == y {
                    vstd::arithmetic::div_mod::lemma_fundamental_div_mod(i, s);
                    assert(s * y == y * s) by (nonlinear_arith);
                }
            }
        }
        y += 1;
    }
}

proof fn lemma_last_of_row(stride: int, height: int, x0: int, x1: int, y0: int, y1: int, row: int)
    requires
        0 <= x0 < x1 <= stride,
        0 <= row,
    ensures
        in_row_segment(row * stride + x1 - 1, stride, row, x0, x1),
{
    lemma_row_col(row * stride + x1 - 1, stride, row, x1 - 1);
}

proof fn lemma_last_of_column(stride: int, y0: int, y1: int, column: int)
    requires
        0 <= column < stride,
        0 <= y0 < y1,
    ensures
        in_column_segment((y1 - 1) * stride + column, stride, column, y0, y1),
{
    lemma_row_col((y1 - 1) * stride + column, stride, y1 - 1, column);
}

/// Draws a two-pixel border around `rect`, clipped to a `stride`×`height` buffer.
pub fn draw_rect_border(buf: &mut Vec<u32>, stride: usize, height: usize, rect: PixelRect, color: u32)
    requires
        ({
            let (x0, x1, y0, y1) = blit_bounds(rect, stride as int, height as int);
            x0 < x1 && y0 < y1 ==> forall|i: int|
                #![trigger border_painted(i, stride as int, height as int, x0, x1, y0, y1)]
                0 <= i && border_painted(i, stride as int, height as int, x0, x1, y0, y1) ==> i
                    < old(buf)@.len()
        }),
    ensures
        final(buf)@.len() == old(buf)@.len(),
        ({
            let (x0, x1, y0, y1) = blit_bounds(rect, stride as int, height as int);
            forall|i: int|
                0 <= i < final(buf)@.len() ==> #[trigger] final(buf)@[i] == if x0 < x1 && y0 < y1
                    && border_painted(i, stride as int, height as int, x0, x1, y0, y1) {
                    color
                } else {
                    old(buf)@[i]
                }
        }),
{
    let x0: usize = if rect.origin.x < 0 {
        0
    } else {
        rect.origin.x as usize
    };
    let y0: usize = if rect.origin.y < 0 {
        0
    } else {
        rect.origin.y as usize
    };
    let x1 = usize_edge(rect.right(), stride);
    let y1 = usize_edge(rect.bottom(), height);
    if x1 <= x0 || y1 <= y0 {
        return;
    }
    let ghost start = buf@;
    let low_row: usize = if y1 >= 2 {
        y1 - 2
    } else {
        0
    };
    let right_inner: usize = if x1 >= 2 {
        x1 - 2
    } else {
        0
    };
    let ghost b = blit_bounds(rect, stride as int, height as int);
    assert(b.0 == x0 && b.1 == x1 && b.2 == y0 && b.3 == y1);
    proof {
        lemma_last_of_row((stride as int), height as int, x0 as int, x1 as int, y0 as int, y1 as int, y0 as int);
        assert(border_painted(y0 * (stride as int) + x1 - 1, (stride as int), height as int, b.0, b.1, b.2, b.3));
        lemma_last_of_row((stride as int), height as int, x0 as int, x1 as int, y0 as int, y1 as int, y1 - 1);
        assert(border_painted((y1 - 1) * (stride as int) + x1 - 1, (stride as int), height as int, b.0, b.1, b.2, b.3));
        lemma_last_of_column((stride as int), y0 as int, y1 as int, x0 as int);
        assert(border_painted((y1 - 1) * (stride as int) + x0, (stride as int), height as int, b.0, b.1, b.2, b.3));
        lemma_last_of_column((stride as int), y0 as int, y1 as int, x1 - 1);
        assert(border_painted((y1 - 1) * (stride as int) + x1 - 1, (stride as int), height as int, b.0, b.1, b.2, b.3));
        lemma_last_of_column((stride as int), y0 as int, y1 as int, right_inner as int);
        assert(border_painted((y1 - 1) * (stride as int) + right_inner, (stride as int), height as int, b.0, b.1, b.2, b.3));
        if y0 + 1 < height {
            lemma_last_of_row((stride as int), height as int, x0 as int, x1 as int, y0 as int, y1 as int, y0 + 1);
            assert(border_painted((y0 + 1) * (stride as int) + x1 - 1, (stride as int), height as int, b.0, b.1, b.2, b.3));
        }
        if low_row >= y0 {
            lemma_last_of_row((stride as int), height as int, x0 as int, x1 as int, y0 as int, y1 as int, low_row as int);
            assert(border_painted(low_row * (stride as int) + x1 - 1, (stride as int), height as int, b.0, b.1, b.2, b.3));
        }
        if x0 + 1 < stride {
            lemma_last_of_column((stride as int), y0 as int, y1 as int, x0 + 1);
            assert(border_painted((y1 - 1) * (stride as int) + x0 + 1, (stride as int), height as int, b.0, b.1, b.2, b.3));
        }
    }
    paint_row(buf, stride, y0, x0, x1, color);
    paint_row(buf, stride, y1 - 1, x0, x1, color);
    paint_column(buf, stride, x0, y0, y1, color);
    paint_column(buf, stride, x1 - 1, y0, y1, color);
    if y0 + 1 < height {
        paint_row(buf, stride, y0 + 1, x0, x1, color);
    }
    if low_row < height && low_row >= y0 {
        paint_row(buf, stride, low_row, x0, x1, color);
    }
    if x0 + 1 < stride {
        paint_column(buf, stride, x0 + 1, y0, y1, color);
    }
    paint_column(buf, stride, right_inner, y0, y1, color);
}

} // verus!
