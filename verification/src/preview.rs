//! Thumbnails of node images: box-average downsampling of RGB buffers.

use vstd::prelude::*;

verus! {

/// Longest edge of an in-canvas preview.
pub const MAX_PREVIEW_EDGE: u32 = 256;

/// Why a preview could not be built from an RGB buffer.
#[derive(Clone, Copy, Debug, PartialEq, Eq, Structural)]
pub enum PreviewError {
    /// Width or height is zero.
    BadSize { width: u32, height: u32 },
    /// The buffer does not hold `width * height * 3` bytes.
    BadByteLen { expected: usize, actual: usize },
}

/// `num / den` rounded to nearest, halves away from zero (`num >= 0`, `den > 0`).
pub open spec fn round_div(num: int, den: int) -> int {
    (2 * num + den) / (2 * den)
}

pub open spec fn at_least_one(v: int) -> int {
    if v < 1 { 1 } else { v }
}

/// Whether an image of `w` by `h` is kept as it is under a cap of `m`.
pub open spec fn fits_cap(w: int, h: int, m: int) -> bool {
    w <= m && h <= m
}

/// Size of the thumbnail: the image scaled by `min(m / w, m / h)`, each
/// side rounded and at least 1.
pub open spec fn thumb_width(w: int, h: int, m: int) -> int {
    if fits_cap(w, h, m) { w } else if w >= h { at_least_one(m) } else { at_least_one(round_div(w * m, h)) }
}

pub open spec fn thumb_height(w: int, h: int, m: int) -> int {
    if fits_cap(w, h, m) { h } else if w >= h { at_least_one(round_div(h * m, w)) } else { at_least_one(m) }
}

/// First source row (or column) averaged into destination row `d` of `dn`
/// when scaling `n` source rows: `floor(d * n / dn)`.
pub open spec fn span_start(d: int, n: int, dn: int) -> int {
    (d * n) / dn
}

/// One past the last source row averaged into destination row `d`:
/// `ceil((d + 1) * n / dn)`, at most `n`.
pub open spec fn span_end(d: int, n: int, dn: int) -> int {
    let e = ((d + 1) * n + dn - 1) / dn;
    if e < n { e } else { n }
}

/// Sum of channel `c` over columns `x0..x1` of row `y`.
pub open spec fn row_sum(src: Seq<u8>, w: int, c: int, y: int, x0: int, x1: int) -> int
    decreases x1 - x0,
{
    if x1 <= x0 { 0 } else { row_sum(src, w, c, y, x0, x1 - 1) + src[(y * w + x1 - 1) * 3 + c] as int }
}

/// Sum of channel `c` over rows `y0..y1`, columns `x0..x1`.
pub open spec fn block_sum(src: Seq<u8>, w: int, c: int, y0: int, y1: int, x0: int, x1: int) -> int
    decreases y1 - y0,
{
    if y1 <= y0 { 0 } else { block_sum(src, w, c, y0, y1 - 1, x0, x1) + row_sum(src, w, c, y1 - 1, x0, x1) }
}

/// Number of pixels in rows `y0..y1`, columns `x0..x1`.
pub open spec fn block_count(y0: int, y1: int, x0: int, x1: int) -> int {
    if y1 <= y0 || x1 <= x0 { 0 } else { (y1 - y0) * (x1 - x0) }
}

pub struct Block {
    pub y0: int,
    pub y1: int,
    pub x0: int,
    pub x1: int,
}

/// The source block averaged into destination pixel `(dx, dy)`.
pub open spec fn block_of(w: int, h: int, dw: int, dh: int, dx: int, dy: int) -> Block {
    Block { y0: span_start(dy, h, dh), y1: span_end(dy, h, dh), x0: span_start(dx, w, dw), x1: span_end(dx, w, dw) }
}

/// Channel `c` of destination pixel `(dx, dy)`: the block's average, rounded down.
pub open spec fn thumb_value(src: Seq<u8>, w: int, h: int, dw: int, dh: int, dx: int, dy: int, c: int) -> int {
    let b = block_of(w, h, dw, dh, dx, dy);
    block_sum(src, w, c, b.y0, b.y1, b.x0, b.x1) / at_least_one(block_count(b.y0, b.y1, b.x0, b.x1))
}

/// Position of channel `c` of pixel `(x, y)` in a packed RGB buffer of width `w`.
pub open spec fn pixel_index(w: int, x: int, y: int, c: int) -> int {
    (y * w + x) * 3 + c
}

proof fn lemma_row_sum_mono(src: Seq<u8>, w: int, c: int, y: int, x0: int, x: int, x1: int)
    requires
        x0 <= x <= x1,
    ensures
        0 <= row_sum(src, w, c, y, x0, x) <= row_sum(src, w, c, y, x0, x1),
    decreases x1 - x,
{
    if x < x1 {
        lemma_row_sum_mono(src, w, c, y, x0, x, x1 - 1);
    } else {
        lemma_row_sum_nonneg(src, w, c, y, x0, x);
    }
}

proof fn lemma_row_sum_nonneg(src: Seq<u8>, w: int, c: int, y: int, x0: int, x: int)
    ensures
        0 <= row_sum(src, w, c, y, x0, x),
    decreases x - x0,
{
    if x > x0 {
        lemma_row_sum_nonneg(src, w, c, y, x0, x - 1);
    }
}

proof fn lemma_block_sum_mono(src: Seq<u8>, w: int, c: int, y0: int, y: int, y1: int, x0: int, x1: int)
    requires
        y0 <= y <= y1,
    ensures
        0 <= block_sum(src, w, c, y0, y, x0, x1) <= block_sum(src, w, c, y0, y1, x0, x1),
    decreases y1 - y,
{
    if y < y1 {
        lemma_block_sum_mono(src, w, c, y0, y, y1 - 1, x0, x1);
        lemma_row_sum_nonneg(src, w, c, y1 - 1, x0, x1);
    } else {
        lemma_block_sum_nonneg(src, w, c, y0, y, x0, x1);
    }
}

proof fn lemma_block_sum_nonneg(src: Seq<u8>, w: int, c: int, y0: int, y: int, x0: int, x1: int)
    ensures
        0 <= block_sum(src, w, c, y0, y, x0, x1),
    decreases y - y0,
{
    if y > y0 {
        lemma_block_sum_nonneg(src, w, c, y0, y - 1, x0, x1);
        lemma_row_sum_nonneg(src, w, c, y - 1, x0, x1);
    }
}

/// Sums channel by channel the pixels of rows `y0..y1`, columns `x0..x1`
/// of a packed RGB image of width `w` and height `h`, and divides by their
/// number (at least 1).
fn average_block(src: &[u8], w: u32, h: u32, y0: u32, y1: u32, x0: u32, x1: u32) -> (px: [u8; 3])
    requires
        y0 <= y1 <= h,
        x0 <= x1 <= w,
        w * h * 3 <= u32::MAX,
        src@.len() >= w * h * 3,
    ensures
        forall|c: int|
            0 <= c < 3 ==> px[c] as int == #[trigger] block_sum(src@, w as int, c, y0 as int, y1 as int, x0 as int, x1 as int)
                / at_least_one(block_count(y0 as int, y1 as int, x0 as int, x1 as int)),
{
    let ghost s = src@;
    let ghost wi = w as int;
    let ghost yi0 = y0 as int;
    let ghost yi1 = y1 as int;
    let ghost xi0 = x0 as int;
    let ghost xi1 = x1 as int;
    assert(block_count(yi0, yi1, xi0, xi1) <= w * h) by (nonlinear_arith)
        requires
            y0 <= y1 <= h,
            x0 <= x1 <= w,
            block_count(yi0, yi1, xi0, xi1) == if y1 <= y0 || x1 <= x0 { 0 } else { (y1 - y0) * (x1 - x0) },
    {
        if y1 > y0 && x1 > x0 {
            assert((y1 - y0) * (x1 - x0) <= h * (x1 - x0));
            assert(h * (x1 - x0) <= h * w);
        }
    }
    proof {
        lemma_block_sum_bound(s, wi, 0, yi0, yi1, xi0, xi1);
        lemma_block_sum_bound(s, wi, 1, yi0, yi1, xi0, xi1);
        lemma_block_sum_bound(s, wi, 2, yi0, yi1, xi0, xi1);
    }
    let mut acc0: u64 = 0;
    let mut acc1: u64 = 0;
    let mut acc2: u64 = 0;
    let mut n: u32 = 0;
    let mut y = y0;
    while y < y1
        invariant
            y0 <= y <= y1 <= h,
            x0 <= x1 <= w,
            w * h * 3 <= u32::MAX,
            s.len() >= w * h * 3,
            s == src@,
            wi == w as int && yi0 == y0 as int && yi1 == y1 as int && xi0 == x0 as int && xi1 == x1 as int,
            block_count(yi0, yi1, xi0, xi1) <= u32::MAX,
            block_sum(s, wi, 0, yi0, yi1, xi0, xi1) <= u64::MAX,
            block_sum(s, wi, 1, yi0, yi1, xi0, xi1) <= u64::MAX,
            block_sum(s, wi, 2, yi0, yi1, xi0, xi1) <= u64::MAX,
            acc0 == block_sum(s, wi, 0, yi0, y as int, xi0, xi1),
            acc1 == block_sum(s, wi, 1, yi0, y as int, xi0, xi1),
            acc2 == block_sum(s, wi, 2, yi0, y as int, xi0, xi1),
            n == (y - y0) * (x1 - x0),
        decreases y1 - y,
    {
        let mut x = x0;
        assert((y + 1 - y0) * (x1 - x0) <= block_count(yi0, yi1, xi0, xi1)) by (nonlinear_arith)
            requires
                y0 <= y < y1,
                x0 <= x1,
                block_count(yi0, yi1, xi0, xi1) == if y1 <= y0 || x1 <= x0 { 0 } else { (y1 - y0) * (x1 - x0) },
        {
            if x1 > x0 {
                assert((y + 1 - y0) * (x1 - x0) <= (y1 - y0) * (x1 - x0));
            }
        }
        proof {
            lemma_block_sum_mono(s, wi, 0, yi0, y + 1, yi1, xi0, xi1);
            lemma_block_sum_mono(s, wi, 1, yi0, y + 1, yi1, xi0, xi1);
            lemma_block_sum_mono(s, wi, 2, yi0, y + 1, yi1, xi0, xi1);
        }
        while x < x1
            invariant
                y0 <= y < y1 <= h,
                x0 <= x <= x1 <= w,
                w * h * 3 <= u32::MAX,
                s.len() >= w * h * 3,
                s == src@,
                wi == w as int && yi0 == y0 as int && yi1 == y1 as int && xi0 == x0 as int && xi1 == x1 as int,
                block_sum(s, wi, 0, yi0, y + 1, xi0, xi1) <= u64::MAX,
                block_sum(s, wi, 1, yi0, y + 1, xi0, xi1) <= u64::MAX,
                block_sum(s, wi, 2, yi0, y + 1, xi0, xi1) <= u64::MAX,
                (y + 1 - y0) * (x1 - x0) <= u32::MAX,
                acc0 == block_sum(s, wi, 0, yi0, y as int, xi0, xi1) + row_sum(s, wi, 0, y as int, xi0, x as int),
                acc1 == block_sum(s, wi, 1, yi0, y as int, xi0, xi1) + row_sum(s, wi, 1, y as int, xi0, x as int),
                acc2 == block_sum(s, wi, 2, yi0, y as int, xi0, xi1) + row_sum(s, wi, 2, y as int, xi0, x as int),
                n == (y - y0) * (x1 - x0) + (x - x0),
            decreases x1 - x,
        {
            assert(y * w + x < w * h && (y * w + x) * 3 + 2 < w * h * 3) by (nonlinear_arith)
                requires
                    y < h,
                    x < w,
            {
                assert(y * w + x < y * w + w);
                assert(y * w + w == (y + 1) * w);
                assert((y + 1) * w <= h * w);
            }
            proof {
                lemma_row_sum_mono(s, wi, 0, y as int, xi0, x + 1, xi1);
                lemma_row_sum_mono(s, wi, 1, y as int, xi0, x + 1, xi1);
                lemma_row_sum_mono(s, wi, 2, y as int, xi0, x + 1, xi1);
            }
            assert((y - y0) * (x1 - x0) + (x + 1 - x0) <= (y + 1 - y0) * (x1 - x0)) by (nonlinear_arith)
                requires
                    x < x1,
            {}
            let i = ((y * w + x) * 3) as usize;
            acc0 = acc0 + src[i] as u64;
            acc1 = acc1 + src[i + 1] as u64;
            acc2 = acc2 + src[i + 2] as u64;
            n = n + 1;
            x = x + 1;
        }
        assert((y - y0) * (x1 - x0) + (x1 - x0) == (y + 1 - y0) * (x1 - x0)) by (nonlinear_arith);
        y = y + 1;
    }
    assert(n == block_count(yi0, yi1, xi0, xi1)) by (nonlinear_arith)
        requires
            n == (y1 - y0) * (x1 - x0),
            block_count(yi0, yi1, xi0, xi1) == if y1 <= y0 || x1 <= x0 { 0 } else { (y1 - y0) * (x1 - x0) },
            y0 <= y1,
            x0 <= x1,
    {}
    let n = if n < 1 {
        1
    } else {
        n
    };
    proof {
        lemma_block_sum_bound(s, wi, 0, yi0, yi1, xi0, xi1);
        lemma_block_sum_bound(s, wi, 1, yi0, yi1, xi0, xi1);
        lemma_block_sum_bound(s, wi, 2, yi0, yi1, xi0, xi1);
        lemma_avg_byte(acc0 as int, n as int, block_count(yi0, yi1, xi0, xi1));
        lemma_avg_byte(acc1 as int, n as int, block_count(yi0, yi1, xi0, xi1));
        lemma_avg_byte(acc2 as int, n as int, block_count(yi0, yi1, xi0, xi1));
    }
    let d = n as u64;
    let px = [(acc0 / d) as u8, (acc1 / d) as u8, (acc2 / d) as u8];
    assert forall|c: int| 0 <= c < 3 implies px[c] as int == #[trigger] block_sum(s, wi, c, yi0, yi1, xi0, xi1)
        / at_least_one(block_count(yi0, yi1, xi0, xi1)) by {
        if c == 0 {
        } else if c == 1 {
        } else {
        }
    }
    px
}

/// A sum of `k` bytes is at most `255 k`.
proof fn lemma_block_sum_bound(src: Seq<u8>, w: int, c: int, y0: int, y1: int, x0: int, x1: int)
    requires
        y0 <= y1,
        x0 <= x1,
    ensures
        block_sum(src, w, c, y0, y1, x0, x1) <= 255 * block_count(y0, y1, x0, x1),
    decreases y1 - y0,
{
    if y1 > y0 {
        lemma_block_sum_bound(src, w, c, y0, y1 - 1, x0, x1);
        lemma_row_sum_bound(src, w, c, y1 - 1, x0, x1);
        assert(255 * block_count(y0, y1 - 1, x0, x1) + 255 * (x1 - x0) == 255 * block_count(y0, y1, x0, x1)) by (nonlinear_arith)
            requires
                y0 < y1,
                x0 <= x1,
                block_count(y0, y1 - 1, x0, x1) == if y1 - 1 <= y0 || x1 <= x0 { 0 } else { (y1 - 1 - y0) * (x1 - x0) },
                block_count(y0, y1, x0, x1) == if y1 <= y0 || x1 <= x0 { 0 } else { (y1 - y0) * (x1 - x0) },
        {}
    }
}

proof fn lemma_row_sum_bound(src: Seq<u8>, w: int, c: int, y: int, x0: int, x1: int)
    requires
        x0 <= x1,
    ensures
        row_sum(src, w, c, y, x0, x1) <= 255 * (x1 - x0),
    decreases x1 - x0,
{
    if x1 > x0 {
        lemma_row_sum_bound(src, w, c, y, x0, x1 - 1);
    }
}

/// The average of bytes is a byte.
proof fn lemma_avg_byte(sum: int, n: int, count: int)
    requires
        0 <= sum <= 255 * count,
        n == if count < 1 { 1 } else { count },
    ensures
        0 <= sum / n <= 255,
{
    assert(0 <= sum / n <= 255) by (nonlinear_arith)
        requires
            0 <= sum <= 255 * n,
            n >= 1,
    {}
}


/// The buffer holds the whole `w` by `h` image, and every byte position
/// in it is a `u32`.
pub open spec fn downsample_ok(src: Seq<u8>, w: int, h: int) -> bool {
    &&& src.len() >= w * h * 3
    &&& w * h * 3 <= u32::MAX
}

proof fn lemma_span(d: int, n: int, dn: int)
    requires
        0 <= d < dn,
        0 <= n,
    ensures
        0 <= span_start(d, n, dn) <= span_end(d, n, dn) <= n,
{
    assert(0 <= (d * n) / dn <= n) by (nonlinear_arith)
        requires
            0 <= d < dn,
            0 <= n,
    {
        assert(d * n <= dn * n);
    }
    assert((d * n) / dn <= ((d + 1) * n + dn - 1) / dn) by (nonlinear_arith)
        requires
            0 <= d < dn,
            0 <= n,
    {
        assert(d * n <= (d + 1) * n + dn - 1);
    }
}

/// `round_div(a * b, d)`.
fn round_mul_div(a: u32, b: u32, d: u32) -> (r: u64)
    requires
        d > 0,
        a <= d,
    ensures
        r == round_div(a * b, d as int),
        r <= b,
{
    proof {
        lemma_round_le(a as int, d as int, b as int);
    }
    assert(2 * (a as int) * (b as int) + d <= u128::MAX && 2 * (d as int) <= u128::MAX) by (nonlinear_arith)
        requires
            a <= u32::MAX,
            b <= u32::MAX,
            d <= u32::MAX,
    {}
    assert(2 * (a * b) == 2 * (a as int) * (b as int)) by (nonlinear_arith);
    let q: u128 = (2 * (a as u128) * (b as u128) + d as u128) / (2 * d as u128);
    q as u64
}

/// Rounding `h * m / w` to nearest never exceeds `m` when `h <= w`.
proof fn lemma_round_le(h: int, w: int, m: int)
    requires
        0 <= h <= w,
        w > 0,
        m >= 0,
    ensures
        round_div(h * m, w) <= m,
{
    vstd::arithmetic::mul::lemma_mul_inequality(h, w, m);
    assert(2 * w * (m + 1) == 2 * (w * m) + 2 * w) by (nonlinear_arith);
    assert(2 * (h * m) + w < (2 * w) * (m + 1));
    vstd::arithmetic::div_mod::lemma_multiply_divide_lt(2 * (h * m) + w, 2 * w, m + 1);
}

/// `floor(a * n / d)` and `ceil((a + 1) * n / d)` for the spans.
fn span_bounds(a: u32, n: u32, d: u32) -> (r: (u64, u64))
    requires
        d > 0,
        a < d,
    ensures
        r.0 == (a * n) / (d as int),
        r.1 == ((a + 1) * n + d - 1) / (d as int),
{
    assert((a as int) * (n as int) <= u64::MAX && ((a as int) + 1) * (n as int) <= u64::MAX && ((a as int) + 1) * (n as int) + d - 1 <= u128::MAX) by (nonlinear_arith)
        requires
            a < d,
            n <= u32::MAX,
            d <= u32::MAX,
    {}
    let lo: u64 = (a as u64 * n as u64) / d as u64;
    let hi: u128 = ((a as u128 + 1) * n as u128 + d as u128 - 1) / d as u128;
    assert(hi <= u64::MAX) by (nonlinear_arith)
        requires
            hi == ((a + 1) * n + d - 1) / (d as int),
            a < d,
            n <= u32::MAX,
            d > 0,
    {
        assert((a + 1) * n + d - 1 <= d * n + d - 1);
        assert(((a + 1) * n + d - 1) / (d as int) <= (d * n + d - 1) / (d as int));
    }
    (lo, hi as u64)
}

/// `out` (of `dw` by `dh` pixels) is the thumbnail of the `w` by `h` RGB
/// image `src` under cap `m`: the image itself when it fits, else the box
/// averages of its blocks.
pub open spec fn is_thumbnail(src: Seq<u8>, w: int, h: int, m: int, dw: int, dh: int, out: Seq<u8>) -> bool {
    &&& dw == thumb_width(w, h, m)
    &&& dh == thumb_height(w, h, m)
    &&& fits_cap(w, h, m) ==> out == src
    &&& !fits_cap(w, h, m) ==> {
        &&& out.len() == dw * dh * 3
        &&& forall|dx: int, dy: int, c: int|
            0 <= dx < dw && 0 <= dy < dh && 0 <= c < 3 ==> #[trigger] out[pixel_index(dw, dx, dy, c)]
                == thumb_value(src, w, h, dw, dh, dx, dy, c)
    }
}

/// Box-average downsample of a packed RGB image. An image within the cap
/// `max_edge` is returned unchanged; a larger one is scaled by
/// `min(max_edge / w, max_edge / h)` (sides rounded, at least 1), each
/// destination pixel averaging the source pixels its area covers.
/// Returns the new width, height and bytes.
pub fn downsample_rgb(src: &[u8], src_w: u32, src_h: u32, max_edge: u32) -> (r: (u32, u32, Vec<u8>))
    requires
        !fits_cap(src_w as int, src_h as int, max_edge as int) ==> downsample_ok(src@, src_w as int, src_h as int),
    ensures
        is_thumbnail(src@, src_w as int, src_h as int, max_edge as int, r.0 as int, r.1 as int, r.2@),
{
    if src_w <= max_edge && src_h <= max_edge {
        return (src_w, src_h, vstd::slice::slice_to_vec(src));
    }
    let ghost (w, h, m) = (src_w as int, src_h as int, max_edge as int);
    let (dst_w, dst_h): (u32, u32) = if src_w >= src_h {
        let dh = round_mul_div(src_h, max_edge, src_w);
        (if max_edge < 1 { 1 } else { max_edge }, if dh < 1 { 1 } else { dh as u32 })
    } else {
        let dw = round_mul_div(src_w, max_edge, src_h);
        (if dw < 1 { 1 } else { dw as u32 }, if max_edge < 1 { 1 } else { max_edge })
    };
    assert(dst_w == thumb_width(w, h, m) && dst_h == thumb_height(w, h, m));
    let mut out: Vec<u8> = Vec::new();
    let mut dy: u32 = 0;
    while dy < dst_h
        invariant
            w == src_w && h == src_h && m == max_edge,
            !fits_cap(w, h, m),
            downsample_ok(src@, w, h),
            dst_w == thumb_width(w, h, m),
            dst_h == thumb_height(w, h, m),
            dst_w >= 1 && dst_h >= 1,
            dy <= dst_h,
            out@.len() == dy * dst_w * 3,
            forall|a: int, b: int, c: int|
                0 <= a < dst_w && 0 <= b < dy && 0 <= c < 3 ==> #[trigger] out@[pixel_index(dst_w as int, a, b, c)]
                    == thumb_value(src@, w, h, dst_w as int, dst_h as int, a, b, c),
        decreases dst_h - dy,
    {
        proof {
            lemma_span(dy as int, h, dst_h as int);
        }
        let (ys, ye) = span_bounds(dy, src_h, dst_h);
        let y0 = ys as u32;
        let y1 = if ye < src_h as u64 {
            ye as u32
        } else {
            src_h
        };
        let mut dx: u32 = 0;
        while dx < dst_w
            invariant
                w == src_w && h == src_h && m == max_edge,
                !fits_cap(w, h, m),
                downsample_ok(src@, w, h),
                dst_w == thumb_width(w, h, m),
                dst_h == thumb_height(w, h, m),
                dst_w >= 1 && dst_h >= 1,
                dy < dst_h,
                dx <= dst_w,
                y0 == span_start(dy as int, h, dst_h as int),
                y1 == span_end(dy as int, h, dst_h as int),
                y0 <= y1 <= h,
                out@.len() == (dy * dst_w + dx) * 3,
                forall|a: int, b: int, c: int|
                    ((0 <= a < dst_w && 0 <= b < dy) || (0 <= a < dx && b == dy)) && 0 <= c < 3 ==> #[trigger] out@[pixel_index(dst_w as int, a, b, c)]
                        == thumb_value(src@, w, h, dst_w as int, dst_h as int, a, b, c),
            decreases dst_w - dx,
        {
            proof {
                lemma_span(dx as int, w, dst_w as int);
            }
            let (xs, xe) = span_bounds(dx, src_w, dst_w);
            let x0 = xs as u32;
            let x1 = if xe < src_w as u64 {
                xe as u32
            } else {
                src_w
            };
            let px = average_block(src, src_w, src_h, y0, y1, x0, x1);
            let ghost before = out@;
            out.push(px[0]);
            out.push(px[1]);
            out.push(px[2]);
            assert forall|a: int, b: int, c: int|
                ((0 <= a < dst_w && 0 <= b < dy) || (0 <= a < dx + 1 && b == dy)) && 0 <= c < 3 implies #[trigger] out@[pixel_index(dst_w as int, a, b, c)]
                    == thumb_value(src@, w, h, dst_w as int, dst_h as int, a, b, c) by {
                if b == dy && a == dx {
                    assert(pixel_index(dst_w as int, a, b, c) == (dy * dst_w + dx) * 3 + c);
                } else {
                    assert(pixel_index(dst_w as int, a, b, c) < (dy * dst_w + dx) * 3) by (nonlinear_arith)
                        requires
                            (0 <= a < dst_w && 0 <= b < dy) || (0 <= a < dx && b == dy),
                            0 <= c < 3,
                            pixel_index(dst_w as int, a, b, c) == (b * dst_w + a) * 3 + c,
                    {
                        if b < dy {
                            assert(b * dst_w + a < (b + 1) * dst_w);
                            assert((b + 1) * dst_w <= dy * dst_w);
                        }
                    }
                    assert(out@[pixel_index(dst_w as int, a, b, c)] == before[pixel_index(dst_w as int, a, b, c)]);
                }
            }
            assert((dy * dst_w + dx) * 3 + 3 == (dy * dst_w + dx + 1) * 3) by (nonlinear_arith);
            dx = dx + 1;
        }
        assert((dy * dst_w + dst_w) * 3 == (dy + 1) * dst_w * 3) by (nonlinear_arith);
        dy = dy + 1;
    }
    assert(dy * dst_w * 3 == dst_w * dst_h * 3) by (nonlinear_arith)
        requires
            dy == dst_h,
    {}
    (dst_w, dst_h, out)
}



/// A node's image preview: the thumbnail's size and packed RGB bytes, and
/// the handle of the GPU texture holding it (`0` when none was made).
pub struct NodeImagePreview {
    pub texture_id: u32,
    pub width: u32,
    pub height: u32,
    pub rgb_bytes: Vec<u8>,
}

/// What building a preview from `len` bytes said to be a `w` by `h` image
/// gives: an error for an empty side or a wrong length, else success.
pub open spec fn preview_check(len: int, w: u32, h: u32) -> Option<PreviewError> {
    if w == 0 || h == 0 {
        Some(PreviewError::BadSize { width: w, height: h })
    } else if len != w * h * 3 {
        Some(PreviewError::BadByteLen { expected: (w * h * 3) as usize, actual: len as usize })
    } else {
        None
    }
}

/// Checks an RGB buffer of `width` by `height` pixels and downsamples it to
/// at most `MAX_PREVIEW_EDGE` on each side. The preview has no texture yet
/// (`texture_id` is 0): uploading it is up to the caller's GPU context.
pub fn prepare_image_preview(rgb_bytes: &[u8], width: u32, height: u32) -> (r: Result<NodeImagePreview, PreviewError>)
    requires
        width * height * 3 <= usize::MAX,
        rgb_bytes@.len() == width * height * 3 && !fits_cap(width as int, height as int, MAX_PREVIEW_EDGE as int)
            ==> width * height * 3 <= u32::MAX,
    ensures
        match preview_check(rgb_bytes@.len() as int, width, height) {
            Some(e) => r == Err::<NodeImagePreview, PreviewError>(e),
            None => r matches Ok(p) && p.texture_id == 0 && is_thumbnail(
                rgb_bytes@,
                width as int,
                height as int,
                MAX_PREVIEW_EDGE as int,
                p.width as int,
                p.height as int,
                p.rgb_bytes@,
            ),
        },
{
    if width == 0 || height == 0 {
        return Err(PreviewError::BadSize { width, height });
    }
    let expected = (width as usize) * (height as usize) * 3;
    if rgb_bytes.len() != expected {
        return Err(PreviewError::BadByteLen { expected, actual: rgb_bytes.len() });
    }
    let (out_w, out_h, out_bytes) = downsample_rgb(rgb_bytes, width, height, MAX_PREVIEW_EDGE);
    Ok(NodeImagePreview { texture_id: 0, width: out_w, height: out_h, rgb_bytes: out_bytes })
}

/// Every pixel of the `w` by `h` image `src` has colour `col`.
pub open spec fn one_colour(src: Seq<u8>, w: int, h: int, col: Seq<u8>) -> bool {
    forall|x: int, y: int, c: int| 0 <= x < w && 0 <= y < h && 0 <= c < 3 ==> src[#[trigger] pixel_index(w, x, y, c)] == col[c]
}

proof fn lemma_row_one_colour(src: Seq<u8>, w: int, h: int, col: Seq<u8>, c: int, y: int, x0: int, x1: int)
    requires
        one_colour(src, w, h, col),
        col.len() == 3,
        0 <= c < 3,
        0 <= y < h,
        0 <= x0 <= x1 <= w,
    ensures
        row_sum(src, w, c, y, x0, x1) == col[c] * (x1 - x0),
    decreases x1 - x0,
{
    if x1 > x0 {
        lemma_row_one_colour(src, w, h, col, c, y, x0, x1 - 1);
        assert(pixel_index(w, x1 - 1, y, c) == (y * w + x1 - 1) * 3 + c);
        assert(col[c] * (x1 - 1 - x0) + col[c] == col[c] * (x1 - x0)) by (nonlinear_arith);
    } else {
        assert(col[c] * (x1 - x0) == 0) by (nonlinear_arith)
            requires
                x1 == x0,
        {}
    }
}

proof fn lemma_block_one_colour(src: Seq<u8>, w: int, h: int, col: Seq<u8>, c: int, y0: int, y1: int, x0: int, x1: int)
    requires
        one_colour(src, w, h, col),
        col.len() == 3,
        0 <= c < 3,
        0 <= y0 <= y1 <= h,
        0 <= x0 <= x1 <= w,
    ensures
        block_sum(src, w, c, y0, y1, x0, x1) == col[c] * ((y1 - y0) * (x1 - x0)),
    decreases y1 - y0,
{
    if y1 > y0 {
        lemma_block_one_colour(src, w, h, col, c, y0, y1 - 1, x0, x1);
        lemma_row_one_colour(src, w, h, col, c, y1 - 1, x0, x1);
        assert(col[c] * ((y1 - 1 - y0) * (x1 - x0)) + col[c] * (x1 - x0) == col[c] * ((y1 - y0) * (x1 - x0))) by (nonlinear_arith);
    } else {
        assert(col[c] * ((y1 - y0) * (x1 - x0)) == 0) by (nonlinear_arith)
            requires
                y1 == y0,
        {}
    }
}

/// A destination row or column takes at least one source row or column.
proof fn lemma_span_nonempty(d: int, n: int, dn: int)
    requires
        0 <= d < dn,
        n >= 1,
    ensures
        span_start(d, n, dn) < span_end(d, n, dn),
{
    lemma_span(d, n, dn);
    let q = (d * n) / dn;
    assert(q < n) by (nonlinear_arith)
        requires
            0 <= d < dn,
            n >= 1,
            q == (d * n) / dn,
    {
        assert(d * n < dn * n);
    }
    assert(q + 1 <= ((d + 1) * n + dn - 1) / dn) by (nonlinear_arith)
        requires
            0 <= d < dn,
            n >= 1,
            q == (d * n) / dn,
    {
        assert(q * dn <= d * n);
        assert((d + 1) * n + dn - 1 >= (q + 1) * dn);
    }
}

/// An image of one colour keeps that colour when downsampled: every
/// channel of every pixel of its thumbnail is the source's.
pub proof fn law_one_colour_stays(src: Seq<u8>, w: int, h: int, m: int, dw: int, dh: int, out: Seq<u8>, col: Seq<u8>)
    requires
        w >= 1,
        h >= 1,
        col.len() == 3,
        one_colour(src, w, h, col),
        is_thumbnail(src, w, h, m, dw, dh, out),
    ensures
        forall|dx: int, dy: int, c: int|
            0 <= dx < dw && 0 <= dy < dh && 0 <= c < 3 ==> out[#[trigger] pixel_index(dw, dx, dy, c)] == col[c],
{
    if !fits_cap(w, h, m) {
        assert forall|dx: int, dy: int, c: int| 0 <= dx < dw && 0 <= dy < dh && 0 <= c < 3 implies out[#[trigger] pixel_index(dw, dx, dy, c)] == col[c] by {
            let b = block_of(w, h, dw, dh, dx, dy);
            lemma_span_nonempty(dx, w, dw);
            lemma_span_nonempty(dy, h, dh);
            lemma_block_one_colour(src, w, h, col, c, b.y0, b.y1, b.x0, b.x1);
            let k = (b.y1 - b.y0) * (b.x1 - b.x0);
            assert(k >= 1) by (nonlinear_arith)
                requires
                    k == (b.y1 - b.y0) * (b.x1 - b.x0),
                    b.y1 - b.y0 >= 1,
                    b.x1 - b.x0 >= 1,
            {}
            assert(block_count(b.y0, b.y1, b.x0, b.x1) == k);
            assert((col[c] * k) / k == col[c]) by (nonlinear_arith)
                requires
                    k >= 1,
            {}
        }
    }
}

} // verus!
