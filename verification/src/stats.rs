//! Whole-image integer statistics: channel sums and skin-tone counts for
//! style recommendation, and per-pixel difference counts between an
//! effect's output and its input.
use vstd::prelude::*;
use crate::image::{Image, idx, wsum, max_int, min_int, pixel_index};

verus! {

/// If `0 <= f(j) <= k` on the window, the window sum lies in `0..=k * (hi - lo)`.
pub proof fn lemma_wsum_le(f: spec_fn(int) -> int, lo: int, hi: int, k: int)
    requires
        lo <= hi,
        forall|j: int| lo <= j < hi ==> 0 <= #[trigger] f(j) <= k,
    ensures
        0 <= wsum(f, lo, hi) <= k * (hi - lo),
    decreases hi - lo,
{
    if hi > lo {
        lemma_wsum_le(f, lo, hi - 1, k);
        assert(wsum(f, lo, hi) == wsum(f, lo, hi - 1) + f(hi - 1));
        assert(k * (hi - 1 - lo) + k == k * (hi - lo)) by (nonlinear_arith);
    } else {
        assert(k * (hi - lo) == 0) by (nonlinear_arith)
            requires
                hi == lo,
        ;
    }
}

// ------------------------------------------------------------------
// Channel sums and skin tones
// ------------------------------------------------------------------

/// Channel `c` of pixel `p`, pixels taken in storage order.
pub open spec fn channel_fn(data: Seq<u8>, c: int) -> spec_fn(int) -> int {
    |p: int| data[3 * p + c] as int
}

/// The square of channel `c` of pixel `p`.
pub open spec fn square_fn(data: Seq<u8>, c: int) -> spec_fn(int) -> int {
    |p: int| (data[3 * p + c] as int) * (data[3 * p + c] as int)
}

/// A pixel whose colour reads as skin: red between 80 and 230 and the
/// largest channel, green between 30 and 200 and within 60 of red, blue
/// between 20 and 180 (all bounds exclusive).
pub open spec fn is_skin(r: int, g: int, b: int) -> bool {
    &&& 80 < r < 230
    &&& 30 < g < 200
    &&& 20 < b < 180
    &&& r > g
    &&& r > b
    &&& -60 < r - g < 60
}

/// 1 for a skin-coloured pixel, 0 for any other.
pub open spec fn skin_fn(data: Seq<u8>) -> spec_fn(int) -> int {
    |p: int|
        if is_skin(data[3 * p] as int, data[3 * p + 1] as int, data[3 * p + 2] as int) {
            1int
        } else {
            0int
        }
}

/// The integer statistics of an image that the style recommendation reads:
/// per-channel sums and sums of squares, and the number of skin pixels.
#[derive(Debug, Clone, Copy, PartialEq, Eq, Structural)]
pub struct PixelStats {
    pub pixels: u64,
    pub r_sum: u64,
    pub g_sum: u64,
    pub b_sum: u64,
    pub r_sq: u64,
    pub g_sq: u64,
    pub b_sq: u64,
    pub skin: u64,
}

/// One more pixel adds its values to each sum, and every sum up to `nn`
/// pixels stays within `u64`.
proof fn lemma_stats_step(d: Seq<u8>, nn: int, pi: int)
    requires
        0 <= pi < nn,
        d.len() == 3 * nn,
        nn * 65025 <= u64::MAX,
    ensures
        wsum(channel_fn(d, 0), 0, pi + 1) == wsum(channel_fn(d, 0), 0, pi) + d[3 * pi] as int,
        wsum(channel_fn(d, 1), 0, pi + 1) == wsum(channel_fn(d, 1), 0, pi) + d[3 * pi + 1] as int,
        wsum(channel_fn(d, 2), 0, pi + 1) == wsum(channel_fn(d, 2), 0, pi) + d[3 * pi + 2] as int,
        wsum(square_fn(d, 0), 0, pi + 1) == wsum(square_fn(d, 0), 0, pi) + (d[3 * pi] as int) * (d[3 * pi] as int),
        wsum(square_fn(d, 1), 0, pi + 1) == wsum(square_fn(d, 1), 0, pi) + (d[3 * pi + 1] as int) * (d[3 * pi + 1] as int),
        wsum(square_fn(d, 2), 0, pi + 1) == wsum(square_fn(d, 2), 0, pi) + (d[3 * pi + 2] as int) * (d[3 * pi + 2] as int),
        wsum(skin_fn(d), 0, pi + 1) == wsum(skin_fn(d), 0, pi) + skin_fn(d)(pi),
        wsum(channel_fn(d, 0), 0, pi + 1) <= u64::MAX,
        wsum(channel_fn(d, 1), 0, pi + 1) <= u64::MAX,
        wsum(channel_fn(d, 2), 0, pi + 1) <= u64::MAX,
        wsum(square_fn(d, 0), 0, pi + 1) <= u64::MAX,
        wsum(square_fn(d, 1), 0, pi + 1) <= u64::MAX,
        wsum(square_fn(d, 2), 0, pi + 1) <= u64::MAX,
        wsum(skin_fn(d), 0, pi + 1) <= u64::MAX,
{
    let q = pi + 1;
    assert(q * 65025 <= nn * 65025);
    assert forall|c: int| 0 <= c < 3 implies 0 <= wsum(#[trigger] channel_fn(d, c), 0, q) <= 255 * q by {
        assert forall|j: int| 0 <= j < q implies 0 <= #[trigger] channel_fn(d, c)(j) <= 255 by {}
        lemma_wsum_le(channel_fn(d, c), 0, q, 255);
    }
    assert forall|c: int| 0 <= c < 3 implies 0 <= wsum(#[trigger] square_fn(d, c), 0, q) <= 65025 * q by {
        assert forall|j: int| 0 <= j < q implies 0 <= #[trigger] square_fn(d, c)(j) <= 65025 by {
            let v = d[3 * j + c] as int;
            assert(0 <= v * v <= 65025) by (nonlinear_arith)
                requires
                    0 <= v <= 255,
            ;
        }
        lemma_wsum_le(square_fn(d, c), 0, q, 65025);
    }
    assert forall|j: int| 0 <= j < q implies 0 <= #[trigger] skin_fn(d)(j) <= 1 by {}
    lemma_wsum_le(skin_fn(d), 0, q, 1);
    assert(0 <= wsum(channel_fn(d, 0), 0, q) <= 255 * q);
    assert(0 <= wsum(channel_fn(d, 1), 0, q) <= 255 * q);
    assert(0 <= wsum(channel_fn(d, 2), 0, q) <= 255 * q);
    assert(0 <= wsum(square_fn(d, 0), 0, q) <= 65025 * q);
    assert(0 <= wsum(square_fn(d, 1), 0, q) <= 65025 * q);
    assert(0 <= wsum(square_fn(d, 2), 0, q) <= 65025 * q);
}

/// A skin pixel lies in the skin band: red above 80 and under 230, green
/// above 30 and under 200, blue above 20 and under 180, red the largest
/// channel, green less than 60 below red; and every pixel in that band is a
/// skin pixel.
pub proof fn lemma_skin_band(r: int, g: int, b: int)
    ensures
        is_skin(r, g, b) <==> (80 < r && r < 230 && 30 < g && g < 200 && 20 < b && b < 180 && g < r
            && b < r && r - g < 60),
{
}

/// The skin count of an image is the number of its pixels in the skin band
/// (in particular, no pixel with blue at 180 or above is counted).
pub proof fn lemma_skin_count_is_band_count(d: Seq<u8>, n: int)
    requires
        0 <= n,
    ensures
        wsum(skin_fn(d), 0, n) == wsum(
            |p: int|
                {
                    let r = d[3 * p] as int;
                    let g = d[3 * p + 1] as int;
                    let b = d[3 * p + 2] as int;
                    if 80 < r && r < 230 && 30 < g && g < 200 && 20 < b && b < 180 && g < r && b < r && r - g
                        < 60 {
                        1int
                    } else {
                        0int
                    }
                },
            0,
            n,
        ),
        wsum(skin_fn(d), 0, n) <= wsum(|p: int| if (d[3 * p + 2] as int) < 180 { 1int } else { 0int }, 0, n),
{
    let band = |p: int|
        {
            let r = d[3 * p] as int;
            let g = d[3 * p + 1] as int;
            let b = d[3 * p + 2] as int;
            if 80 < r && r < 230 && 30 < g && g < 200 && 20 < b && b < 180 && g < r && b < r && r - g < 60 {
                1int
            } else {
                0int
            }
        };
    assert(skin_fn(d) =~= band);
    let blue = |p: int| if (d[3 * p + 2] as int) < 180 { 1int } else { 0int };
    lemma_wsum_pointwise_le(band, blue, 0, n);
}

proof fn lemma_wsum_pointwise_le(f: spec_fn(int) -> int, g: spec_fn(int) -> int, lo: int, hi: int)
    requires
        lo <= hi,
        forall|j: int| lo <= j < hi ==> #[trigger] f(j) <= g(j),
    ensures
        wsum(f, lo, hi) <= wsum(g, lo, hi),
    decreases hi - lo,
{
    if hi > lo {
        lemma_wsum_pointwise_le(f, g, lo, hi - 1);
    }
}

/// Whether a pixel is skin-coloured (see `is_skin`).
pub fn skin_pixel(r: u8, g: u8, b: u8) -> (s: bool)
    ensures
        s == is_skin(r as int, g as int, b as int),
{
    r > 80 && r < 230 && g > 30 && g < 200 && b > 20 && b < 180 && r > g && r > b && r - g < 60
}

/// One pass over the pixels: the sum and the sum of squares of each
/// channel, and how many pixels are skin-coloured.
pub fn pixel_stats(img: &Image) -> (st: PixelStats)
    requires
        img.wf(),
        (img.width as int) * (img.height as int) * 65025 <= u64::MAX,
    ensures
        st.pixels == (img.width as int) * (img.height as int),
        st.r_sum == wsum(channel_fn(img.data@, 0), 0, (img.width as int) * (img.height as int)),
        st.g_sum == wsum(channel_fn(img.data@, 1), 0, (img.width as int) * (img.height as int)),
        st.b_sum == wsum(channel_fn(img.data@, 2), 0, (img.width as int) * (img.height as int)),
        st.r_sq == wsum(square_fn(img.data@, 0), 0, (img.width as int) * (img.height as int)),
        st.g_sq == wsum(square_fn(img.data@, 1), 0, (img.width as int) * (img.height as int)),
        st.b_sq == wsum(square_fn(img.data@, 2), 0, (img.width as int) * (img.height as int)),
        st.skin == wsum(skin_fn(img.data@), 0, (img.width as int) * (img.height as int)),
{
    let len: usize = img.data.len();
    let n: usize = len / 3;
    let ghost d = img.data@;
    let ghost nn = (img.width as int) * (img.height as int);
    assert(n == nn);
    assert(img.data@.len() == 3 * n);
    let mut r_sum: u64 = 0;
    let mut g_sum: u64 = 0;
    let mut b_sum: u64 = 0;
    let mut r_sq: u64 = 0;
    let mut g_sq: u64 = 0;
    let mut b_sq: u64 = 0;
    let mut skin: u64 = 0;
    let mut p: usize = 0;
    while p < n
        invariant
            d == img.data@,
            n == nn,
            d.len() == 3 * nn,
            img.data@.len() == 3 * n,
            len == img.data@.len(),
            nn * 65025 <= u64::MAX,
            p <= n,
            r_sum == wsum(channel_fn(d, 0), 0, p as int),
            g_sum == wsum(channel_fn(d, 1), 0, p as int),
            b_sum == wsum(channel_fn(d, 2), 0, p as int),
            r_sq == wsum(square_fn(d, 0), 0, p as int),
            g_sq == wsum(square_fn(d, 1), 0, p as int),
            b_sq == wsum(square_fn(d, 2), 0, p as int),
            skin == wsum(skin_fn(d), 0, p as int),
        decreases n - p,
    {
        let base: usize = 3 * p;
        let r = img.data[base];
        let g = img.data[base + 1];
        let b = img.data[base + 2];
        proof {
            lemma_stats_step(d, nn, p as int);
        }
        r_sum = r_sum + r as u64;
        g_sum = g_sum + g as u64;
        b_sum = b_sum + b as u64;
        r_sq = r_sq + (r as u64) * (r as u64);
        g_sq = g_sq + (g as u64) * (g as u64);
        b_sq = b_sq + (b as u64) * (b as u64);
        if skin_pixel(r, g, b) {
            skin = skin + 1;
        }
        p = p + 1;
    }
    PixelStats { pixels: n as u64, r_sum, g_sum, b_sum, r_sq, g_sq, b_sq, skin }
}

// ------------------------------------------------------------------
// Output-against-input differences
// ------------------------------------------------------------------

/// The largest `f(j)` for `lo <= j < hi`, and 0 for an empty window.
pub open spec fn wmax(f: spec_fn(int) -> int, lo: int, hi: int) -> int
    decreases hi - lo,
{
    if hi <= lo {
        0
    } else {
        max_int(wmax(f, lo, hi - 1), f(hi - 1))
    }
}

/// Row `y` of a function of the pixel position, as a function of the column.
pub open spec fn row_at(f: spec_fn(int, int) -> int, y: int) -> spec_fn(int) -> int {
    |x: int| f(x, y)
}

/// Each row's sum over the first `cols` columns, as a function of the row.
pub open spec fn row_sums(f: spec_fn(int, int) -> int, cols: int) -> spec_fn(int) -> int {
    |y: int| wsum(row_at(f, y), 0, cols)
}

/// Each row's largest value over the first `cols` columns, as a function of the row.
pub open spec fn row_maxes(f: spec_fn(int, int) -> int, cols: int) -> spec_fn(int) -> int {
    |y: int| wmax(row_at(f, y), 0, cols)
}

/// The sum of `f(x, y)` over the first `cols` columns of the first `rows` rows.
pub open spec fn gsum(f: spec_fn(int, int) -> int, cols: int, rows: int) -> int {
    wsum(row_sums(f, cols), 0, rows)
}

/// The largest `f(x, y)` over the first `cols` columns of the first `rows` rows.
pub open spec fn gmax(f: spec_fn(int, int) -> int, cols: int, rows: int) -> int {
    wmax(row_maxes(f, cols), 0, rows)
}

pub open spec fn abs_int(v: int) -> int {
    if v < 0 {
        -v
    } else {
        v
    }
}

/// Output minus input in channel `c` of pixel (`x`, `y`).
pub open spec fn chan_diff(o: Seq<u8>, wo: int, q: Seq<u8>, wq: int, x: int, y: int, c: int) -> int {
    o[idx(wo, x, y, c)] as int - q[idx(wq, x, y, c)] as int
}

/// How many channels of a pixel moved by more than 30.
pub open spec fn bad_fn(o: Seq<u8>, wo: int, q: Seq<u8>, wq: int) -> spec_fn(int, int) -> int {
    |x: int, y: int|
        (if abs_int(chan_diff(o, wo, q, wq, x, y, 0)) > 30 { 1int } else { 0int })
        + (if abs_int(chan_diff(o, wo, q, wq, x, y, 1)) > 30 { 1int } else { 0int })
        + (if abs_int(chan_diff(o, wo, q, wq, x, y, 2)) > 30 { 1int } else { 0int })
}

/// The largest change of any channel of a pixel.
pub open spec fn max_fn(o: Seq<u8>, wo: int, q: Seq<u8>, wq: int) -> spec_fn(int, int) -> int {
    |x: int, y: int|
        max_int(
            abs_int(chan_diff(o, wo, q, wq, x, y, 0)),
            max_int(abs_int(chan_diff(o, wo, q, wq, x, y, 1)), abs_int(chan_diff(o, wo, q, wq, x, y, 2))),
        )
}

/// 1 where a pixel turned blue: blue up by more than 30, red and green down by more than 10.
pub open spec fn blue_fn(o: Seq<u8>, wo: int, q: Seq<u8>, wq: int) -> spec_fn(int, int) -> int {
    |x: int, y: int|
        if chan_diff(o, wo, q, wq, x, y, 2) > 30 && chan_diff(o, wo, q, wq, x, y, 0) < -10
            && chan_diff(o, wo, q, wq, x, y, 1) < -10 {
            1int
        } else {
            0int
        }
}

/// 1 where a pixel went black: every output channel under 5, every input channel over 50.
pub open spec fn black_fn(o: Seq<u8>, wo: int, q: Seq<u8>, wq: int) -> spec_fn(int, int) -> int {
    |x: int, y: int|
        if o[idx(wo, x, y, 0)] < 5 && o[idx(wo, x, y, 1)] < 5 && o[idx(wo, x, y, 2)] < 5
            && q[idx(wq, x, y, 0)] > 50 && q[idx(wq, x, y, 1)] > 50 && q[idx(wq, x, y, 2)] > 50 {
            1int
        } else {
            0int
        }
}

/// 1 where a pixel went white: every output channel over 250, every input channel under 200.
pub open spec fn white_fn(o: Seq<u8>, wo: int, q: Seq<u8>, wq: int) -> spec_fn(int, int) -> int {
    |x: int, y: int|
        if o[idx(wo, x, y, 0)] > 250 && o[idx(wo, x, y, 1)] > 250 && o[idx(wo, x, y, 2)] > 250
            && q[idx(wq, x, y, 0)] < 200 && q[idx(wq, x, y, 1)] < 200 && q[idx(wq, x, y, 2)] < 200 {
            1int
        } else {
            0int
        }
}

/// How an effect's output differs from its input, over the pixels that both
/// images have (the overlap of their rows and columns).
#[derive(Debug, Clone, Copy, PartialEq, Eq, Structural)]
pub struct DiffStats {
    pub max_diff: u8,
    pub bad: u64,
    pub blue_shift: u64,
    pub black_dot: u64,
    pub white_dot: u64,
}

proof fn lemma_wmax_le(f: spec_fn(int) -> int, lo: int, hi: int, k: int)
    requires
        lo <= hi,
        0 <= k,
        forall|j: int| lo <= j < hi ==> 0 <= #[trigger] f(j) <= k,
    ensures
        0 <= wmax(f, lo, hi) <= k,
    decreases hi - lo,
{
    if hi > lo {
        lemma_wmax_le(f, lo, hi - 1, k);
    }
}

/// The running sum of a grid walk, with `x` cells of row `y` taken, steps by
/// one cell and stays within `k * cols * rows`.
proof fn lemma_grid_sum_step(f: spec_fn(int, int) -> int, k: int, cols: int, rows: int, x: int, y: int)
    requires
        0 <= x < cols,
        0 <= y < rows,
        0 <= k,
        forall|i: int, j: int| 0 <= i < cols && 0 <= j < rows ==> 0 <= #[trigger] f(i, j) <= k,
    ensures
        wsum(row_at(f, y), 0, x + 1) == wsum(row_at(f, y), 0, x) + f(x, y),
        0 <= gsum(f, cols, y) + wsum(row_at(f, y), 0, x + 1) <= k * cols * rows,
{
    assert(wsum(row_at(f, y), 0, x + 1) == wsum(row_at(f, y), 0, x) + row_at(f, y)(x));
    assert forall|i: int| 0 <= i < x + 1 implies 0 <= #[trigger] row_at(f, y)(i) <= k by {
        assert(row_at(f, y)(i) == f(i, y));
    }
    lemma_wsum_le(row_at(f, y), 0, x + 1, k);
    assert forall|j: int| 0 <= j < y implies 0 <= #[trigger] row_sums(f, cols)(j) <= k * cols by {
        assert forall|i: int| 0 <= i < cols implies 0 <= #[trigger] row_at(f, j)(i) <= k by {
            assert(row_at(f, j)(i) == f(i, j));
        }
        lemma_wsum_le(row_at(f, j), 0, cols, k);
    }
    lemma_wsum_le(row_sums(f, cols), 0, y, k * cols);
    assert(k * cols * y + k * (x + 1) <= k * cols * rows) by (nonlinear_arith)
        requires
            0 <= x < cols,
            0 <= y < rows,
            0 <= k,
    ;
    assert((k * cols) * y == k * cols * y) by (nonlinear_arith);
}

/// Closing a row of the walk adds that row's sum to the grid sum.
proof fn lemma_grid_row_done(f: spec_fn(int, int) -> int, cols: int, y: int)
    requires
        0 <= y,
    ensures
        gsum(f, cols, y + 1) == gsum(f, cols, y) + wsum(row_at(f, y), 0, cols),
        gmax(f, cols, y + 1) == max_int(gmax(f, cols, y), wmax(row_at(f, y), 0, cols)),
{
    assert(wsum(row_sums(f, cols), 0, y + 1) == wsum(row_sums(f, cols), 0, y) + row_sums(f, cols)(y));
    assert(wmax(row_maxes(f, cols), 0, y + 1) == max_int(wmax(row_maxes(f, cols), 0, y), row_maxes(f, cols)(y)));
}

/// The running maximum of a grid walk steps by one cell and stays within `0..=k`.
proof fn lemma_grid_max_step(f: spec_fn(int, int) -> int, k: int, cols: int, rows: int, x: int, y: int)
    requires
        0 <= x < cols,
        0 <= y < rows,
        0 <= k,
        forall|i: int, j: int| 0 <= i < cols && 0 <= j < rows ==> 0 <= #[trigger] f(i, j) <= k,
    ensures
        wmax(row_at(f, y), 0, x + 1) == max_int(wmax(row_at(f, y), 0, x), f(x, y)),
        0 <= gmax(f, cols, y) <= k,
        0 <= wmax(row_at(f, y), 0, x + 1) <= k,
{
    assert(wmax(row_at(f, y), 0, x + 1) == max_int(wmax(row_at(f, y), 0, x), row_at(f, y)(x)));
    assert forall|i: int| 0 <= i < x + 1 implies 0 <= #[trigger] row_at(f, y)(i) <= k by {
        assert(row_at(f, y)(i) == f(i, y));
    }
    lemma_wmax_le(row_at(f, y), 0, x + 1, k);
    assert forall|j: int| 0 <= j < y implies 0 <= #[trigger] row_maxes(f, cols)(j) <= k by {
        assert forall|i: int| 0 <= i < cols implies 0 <= #[trigger] row_at(f, j)(i) <= k by {
            assert(row_at(f, j)(i) == f(i, j));
        }
        lemma_wmax_le(row_at(f, j), 0, cols, k);
    }
    lemma_wmax_le(row_maxes(f, cols), 0, y, k);
}

/// Comparing an image with itself finds no change: the largest difference
/// and every count are 0.
pub proof fn lemma_diff_self_zero(d: Seq<u8>, w: int, h: int)
    requires
        0 <= w,
        0 <= h,
        d.len() == w * h * 3,
    ensures
        gmax(max_fn(d, w, d, w), w, h) == 0,
        gsum(bad_fn(d, w, d, w), w, h) == 0,
        gsum(blue_fn(d, w, d, w), w, h) == 0,
        gsum(black_fn(d, w, d, w), w, h) == 0,
        gsum(white_fn(d, w, d, w), w, h) == 0,
{
    let fs = seq![max_fn(d, w, d, w), bad_fn(d, w, d, w), blue_fn(d, w, d, w), black_fn(d, w, d, w), white_fn(d, w, d, w)];
    assert forall|k: int| 0 <= k < 5 implies gmax(#[trigger] fs[k], w, h) == 0 && gsum(fs[k], w, h) == 0 by {
        let f = fs[k];
        assert forall|i: int, j: int| 0 <= i < w && 0 <= j < h implies #[trigger] f(i, j) == 0 by {}
        assert forall|j: int| 0 <= j < h implies 0 <= #[trigger] row_sums(f, w)(j) <= 0 by {
            assert forall|i: int| 0 <= i < w implies 0 <= #[trigger] row_at(f, j)(i) <= 0 by {
                assert(row_at(f, j)(i) == f(i, j));
            }
            lemma_wsum_le(row_at(f, j), 0, w, 0);
        }
        lemma_wsum_le(row_sums(f, w), 0, h, 0);
        assert forall|j: int| 0 <= j < h implies 0 <= #[trigger] row_maxes(f, w)(j) <= 0 by {
            assert forall|i: int| 0 <= i < w implies 0 <= #[trigger] row_at(f, j)(i) <= 0 by {
                assert(row_at(f, j)(i) == f(i, j));
            }
            lemma_wmax_le(row_at(f, j), 0, w, 0);
        }
        lemma_wmax_le(row_maxes(f, w), 0, h, 0);
        assert(0 * (h - 0) == 0);
    }
    assert(fs[0] == max_fn(d, w, d, w));
    assert(fs[1] == bad_fn(d, w, d, w));
    assert(fs[2] == blue_fn(d, w, d, w));
    assert(fs[3] == black_fn(d, w, d, w));
    assert(fs[4] == white_fn(d, w, d, w));
}

fn abs_diff(a: u8, b: u8) -> (d: u8)
    ensures
        d as int == abs_int(a as int - b as int),
{
    if a >= b {
        a - b
    } else {
        b - a
    }
}

/// Compares an effect's output with its input pixel by pixel over the
/// overlap of the two images: the largest change of any channel, how many
/// channels changed by more than 30, and how many pixels turned blue, went
/// black or went white.
pub fn diff_stats(out: &Image, orig: &Image) -> (st: DiffStats)
    requires
        out.wf(),
        orig.wf(),
    ensures
        ({
            let cols = min_int(out.width as int, orig.width as int);
            let rows = min_int(out.height as int, orig.height as int);
            let o = out.data@;
            let q = orig.data@;
            let wo = out.width as int;
            let wq = orig.width as int;
            &&& st.max_diff as int == gmax(max_fn(o, wo, q, wq), cols, rows)
            &&& st.bad as int == gsum(bad_fn(o, wo, q, wq), cols, rows)
            &&& st.blue_shift as int == gsum(blue_fn(o, wo, q, wq), cols, rows)
            &&& st.black_dot as int == gsum(black_fn(o, wo, q, wq), cols, rows)
            &&& st.white_dot as int == gsum(white_fn(o, wo, q, wq), cols, rows)
        }),
{
    let wo = out.width as usize;
    let ho = out.height as usize;
    let wq = orig.width as usize;
    let hq = orig.height as usize;
    let cols: usize = if wo < wq { wo } else { wq };
    let rows: usize = if ho < hq { ho } else { hq };
    let ghost o = out.data@;
    let ghost q = orig.data@;
    let ghost fbad = bad_fn(o, wo as int, q, wq as int);
    let ghost fmax = max_fn(o, wo as int, q, wq as int);
    let ghost fblue = blue_fn(o, wo as int, q, wq as int);
    let ghost fblack = black_fn(o, wo as int, q, wq as int);
    let ghost fwhite = white_fn(o, wo as int, q, wq as int);
    let olen: usize = out.data.len();
    let qlen: usize = orig.data.len();
    proof {
        assert((cols as int) * (rows as int) * 3 <= (wo as int) * (ho as int) * 3) by (nonlinear_arith)
            requires
                cols <= wo,
                rows <= ho,
        ;
        assert forall|i: int, j: int| 0 <= i < cols && 0 <= j < rows implies 0 <= #[trigger] fbad(i, j) <= 3 by {}
        assert forall|i: int, j: int| 0 <= i < cols && 0 <= j < rows implies 0 <= #[trigger] fmax(i, j) <= 255 by {
            crate::image::lemma_idx_bounds(wo as int, ho as int, i, j, 0);
            crate::image::lemma_idx_bounds(wo as int, ho as int, i, j, 1);
            crate::image::lemma_idx_bounds(wo as int, ho as int, i, j, 2);
            crate::image::lemma_idx_bounds(wq as int, hq as int, i, j, 0);
            crate::image::lemma_idx_bounds(wq as int, hq as int, i, j, 1);
            crate::image::lemma_idx_bounds(wq as int, hq as int, i, j, 2);
        }
        assert forall|i: int, j: int| 0 <= i < cols && 0 <= j < rows implies 0 <= #[trigger] fblue(i, j) <= 1 by {}
        assert forall|i: int, j: int| 0 <= i < cols && 0 <= j < rows implies 0 <= #[trigger] fblack(i, j) <= 1 by {}
        assert forall|i: int, j: int| 0 <= i < cols && 0 <= j < rows implies 0 <= #[trigger] fwhite(i, j) <= 1 by {}
    }
    let mut max_diff: u8 = 0;
    let mut bad: u64 = 0;
    let mut blue_shift: u64 = 0;
    let mut black_dot: u64 = 0;
    let mut white_dot: u64 = 0;
    let mut y: usize = 0;
    while y < rows
        invariant
            o == out.data@,
            q == orig.data@,
            olen == o.len(),
            qlen == q.len(),
            o.len() == (wo as int) * (ho as int) * 3,
            q.len() == (wq as int) * (hq as int) * 3,
            cols <= wo,
            cols <= wq,
            rows <= ho,
            rows <= hq,
            (cols as int) * (rows as int) * 3 <= usize::MAX,
            fbad == bad_fn(o, wo as int, q, wq as int),
            fmax == max_fn(o, wo as int, q, wq as int),
            fblue == blue_fn(o, wo as int, q, wq as int),
            fblack == black_fn(o, wo as int, q, wq as int),
            fwhite == white_fn(o, wo as int, q, wq as int),
            forall|i: int, j: int| 0 <= i < cols && 0 <= j < rows ==> 0 <= #[trigger] fbad(i, j) <= 3,
            forall|i: int, j: int| 0 <= i < cols && 0 <= j < rows ==> 0 <= #[trigger] fmax(i, j) <= 255,
            forall|i: int, j: int| 0 <= i < cols && 0 <= j < rows ==> 0 <= #[trigger] fblue(i, j) <= 1,
            forall|i: int, j: int| 0 <= i < cols && 0 <= j < rows ==> 0 <= #[trigger] fblack(i, j) <= 1,
            forall|i: int, j: int| 0 <= i < cols && 0 <= j < rows ==> 0 <= #[trigger] fwhite(i, j) <= 1,
            y <= rows,
            max_diff as int == gmax(fmax, cols as int, y as int),
            bad as int == gsum(fbad, cols as int, y as int),
            blue_shift as int == gsum(fblue, cols as int, y as int),
            black_dot as int == gsum(fblack, cols as int, y as int),
            white_dot as int == gsum(fwhite, cols as int, y as int),
        decreases rows - y,
    {
        let mut x: usize = 0;
        while x < cols
            invariant
                o == out.data@,
                q == orig.data@,
                olen == o.len(),
                qlen == q.len(),
                o.len() == (wo as int) * (ho as int) * 3,
                q.len() == (wq as int) * (hq as int) * 3,
                cols <= wo,
                cols <= wq,
                rows <= ho,
                rows <= hq,
                (cols as int) * (rows as int) * 3 <= usize::MAX,
                fbad == bad_fn(o, wo as int, q, wq as int),
                fmax == max_fn(o, wo as int, q, wq as int),
                fblue == blue_fn(o, wo as int, q, wq as int),
                fblack == black_fn(o, wo as int, q, wq as int),
                fwhite == white_fn(o, wo as int, q, wq as int),
                forall|i: int, j: int| 0 <= i < cols && 0 <= j < rows ==> 0 <= #[trigger] fbad(i, j) <= 3,
                forall|i: int, j: int| 0 <= i < cols && 0 <= j < rows ==> 0 <= #[trigger] fmax(i, j) <= 255,
                forall|i: int, j: int| 0 <= i < cols && 0 <= j < rows ==> 0 <= #[trigger] fblue(i, j) <= 1,
                forall|i: int, j: int| 0 <= i < cols && 0 <= j < rows ==> 0 <= #[trigger] fblack(i, j) <= 1,
                forall|i: int, j: int| 0 <= i < cols && 0 <= j < rows ==> 0 <= #[trigger] fwhite(i, j) <= 1,
                y < rows,
                x <= cols,
                max_diff as int == max_int(gmax(fmax, cols as int, y as int), wmax(row_at(fmax, y as int), 0, x as int)),
                bad as int == gsum(fbad, cols as int, y as int) + wsum(row_at(fbad, y as int), 0, x as int),
                blue_shift as int == gsum(fblue, cols as int, y as int) + wsum(row_at(fblue, y as int), 0, x as int),
                black_dot as int == gsum(fblack, cols as int, y as int) + wsum(row_at(fblack, y as int), 0, x as int),
                white_dot as int == gsum(fwhite, cols as int, y as int) + wsum(row_at(fwhite, y as int), 0, x as int),
            decreases cols - x,
        {
            let io = pixel_index(wo, ho, x, y, 0);
            let iq = pixel_index(wq, hq, x, y, 0);
            proof {
                crate::image::lemma_idx_bounds(wo as int, ho as int, x as int, y as int, 0);
                crate::image::lemma_idx_bounds(wq as int, hq as int, x as int, y as int, 0);
            }
            let o0 = out.data[io];
            let o1 = out.data[io + 1];
            let o2 = out.data[io + 2];
            let q0 = orig.data[iq];
            let q1 = orig.data[iq + 1];
            let q2 = orig.data[iq + 2];
            proof {
                let (xi, yi) = (x as int, y as int);
                assert(idx(wo as int, xi, yi, 1) == io + 1);
                assert(idx(wo as int, xi, yi, 2) == io + 2);
                assert(idx(wq as int, xi, yi, 1) == iq + 1);
                assert(idx(wq as int, xi, yi, 2) == iq + 2);
                lemma_grid_sum_step(fbad, 3, cols as int, rows as int, xi, yi);
                lemma_grid_sum_step(fblue, 1, cols as int, rows as int, xi, yi);
                lemma_grid_sum_step(fblack, 1, cols as int, rows as int, xi, yi);
                lemma_grid_sum_step(fwhite, 1, cols as int, rows as int, xi, yi);
                lemma_grid_max_step(fmax, 255, cols as int, rows as int, xi, yi);
                assert(3 * (cols as int) * (rows as int) == (cols as int) * (rows as int) * 3) by (nonlinear_arith);
            }
            let d0 = abs_diff(o0, q0);
            let d1 = abs_diff(o1, q1);
            let d2 = abs_diff(o2, q2);
            if d0 > max_diff {
                max_diff = d0;
            }
            if d1 > max_diff {
                max_diff = d1;
            }
            if d2 > max_diff {
                max_diff = d2;
            }
            let mut nbad: u64 = 0;
            if d0 > 30 {
                nbad = nbad + 1;
            }
            if d1 > 30 {
                nbad = nbad + 1;
            }
            if d2 > 30 {
                nbad = nbad + 1;
            }
            bad = bad + nbad;
            let dr = o0 as i32 - q0 as i32;
            let dg = o1 as i32 - q1 as i32;
            let db = o2 as i32 - q2 as i32;
            if db > 30 && dr < -10 && dg < -10 {
                blue_shift = blue_shift + 1;
            }
            if o0 < 5 && o1 < 5 && o2 < 5 && q0 > 50 && q1 > 50 && q2 > 50 {
                black_dot = black_dot + 1;
            }
            if o0 > 250 && o1 > 250 && o2 > 250 && q0 < 200 && q1 < 200 && q2 < 200 {
                white_dot = white_dot + 1;
            }
            x = x + 1;
        }
        proof {
            lemma_grid_row_done(fbad, cols as int, y as int);
            lemma_grid_row_done(fmax, cols as int, y as int);
            lemma_grid_row_done(fblue, cols as int, y as int);
            lemma_grid_row_done(fblack, cols as int, y as int);
            lemma_grid_row_done(fwhite, cols as int, y as int);
        }
        y = y + 1;
    }
    DiffStats { max_diff, bad, blue_shift, black_dot, white_dot }
}

} // verus!
