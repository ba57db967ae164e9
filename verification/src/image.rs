//! 8-bit RGB images and the integer kernels that run on them: box blurs,
//! the three-pass Gaussian approximation, directional and depth-of-field
//! blurs, and per-channel lookup tables.
use vstd::prelude::*;
use vstd::arithmetic::div_mod::{
    lemma_div_by_multiple, lemma_fundamental_div_mod, lemma_fundamental_div_mod_converse,
};

verus! {

/// An RGB image, 3 bytes per pixel, rows top to bottom, pixels left to right.
pub struct Image {
    pub width: u32,
    pub height: u32,
    pub data: Vec<u8>,
}

/// Position of channel `c` of pixel (`x`, `y`) in the data of an image `w` wide.
pub open spec fn idx(w: int, x: int, y: int, c: int) -> int {
    (y * w + x) * 3 + c
}

/// The column of the pixel that byte `i` belongs to.
pub open spec fn col_of(w: int, i: int) -> int {
    (i / 3) % w
}

/// The row of the pixel that byte `i` belongs to.
pub open spec fn row_of(w: int, i: int) -> int {
    (i / 3) / w
}

impl Image {
    /// The data holds exactly 3 bytes for each pixel.
    pub open spec fn wf(&self) -> bool {
        self.data@.len() == (self.width as int) * (self.height as int) * 3
    }

    /// A black image of the given size.
    pub fn new(width: u32, height: u32) -> (img: Image)
        requires
            (width as int) * (height as int) * 3 <= usize::MAX,
        ensures
            img.wf(),
            img.width == width,
            img.height == height,
            forall|i: int| 0 <= i < img.data@.len() ==> img.data@[i] == 0,
    {
        let n = (width as usize) * (height as usize) * 3;
        let mut data: Vec<u8> = Vec::new();
        for i in 0..n
            invariant
                data@.len() == i,
                forall|k: int| 0 <= k < i ==> data@[k] == 0,
        {
            data.push(0);
        }
        Image { width, height, data }
    }
}

pub proof fn lemma_idx_bounds(w: int, h: int, x: int, y: int, c: int)
    requires
        0 <= x < w,
        0 <= y < h,
        0 <= c < 3,
    ensures
        0 <= idx(w, x, y, c) < w * h * 3,
        idx(w, x, y, c) + 3 - c <= w * h * 3,
{
    assert(0 <= y * w + x < w * h) by (nonlinear_arith)
        requires
            0 <= x < w,
            0 <= y < h,
    ;
}

/// Byte `i` of an image `w` wide and `h` high is channel `i % 3` of pixel
/// (`col_of(w, i)`, `row_of(w, i)`).
pub proof fn lemma_idx_decompose(w: int, h: int, i: int)
    requires
        0 <= w,
        0 <= h,
        0 <= i < w * h * 3,
    ensures
        0 <= col_of(w, i) < w,
        0 <= row_of(w, i) < h,
        0 <= i % 3 < 3,
        idx(w, col_of(w, i), row_of(w, i), i % 3) == i,
{
    let p = i / 3;
    lemma_fundamental_div_mod(i, 3);
    assert(0 <= p < w * h) by (nonlinear_arith)
        requires
            i == 3 * p + i % 3,
            0 <= i % 3 < 3,
            0 <= i < w * h * 3,
    ;
    assert(w > 0) by (nonlinear_arith)
        requires
            0 <= p < w * h,
            0 <= w,
            0 <= h,
    ;
    lemma_fundamental_div_mod(p, w);
    let q = p / w;
    let r = p % w;
    assert(0 <= q < h) by (nonlinear_arith)
        requires
            p == w * q + r,
            0 <= r < w,
            0 <= p < w * h,
    ;
    assert((q * w + r) * 3 + i % 3 == i) by (nonlinear_arith)
        requires
            p == w * q + r,
            i == 3 * p + i % 3,
    ;
}

/// The pixel coordinates of an index are the ones it was made from.
pub proof fn lemma_idx_compose(w: int, h: int, x: int, y: int, c: int)
    requires
        0 <= x < w,
        0 <= y < h,
        0 <= c < 3,
    ensures
        col_of(w, idx(w, x, y, c)) == x,
        row_of(w, idx(w, x, y, c)) == y,
        idx(w, x, y, c) % 3 == c,
{
    assert(y * w + x >= 0) by (nonlinear_arith)
        requires
            0 <= x < w,
            0 <= y < h,
    ;
    lemma_fundamental_div_mod_converse(idx(w, x, y, c), 3, y * w + x, c);
    lemma_fundamental_div_mod_converse(y * w + x, w, y, x);
}

/// Two pixel positions with the same index are the same position.
pub proof fn lemma_idx_injective(w: int, h: int, x1: int, y1: int, c1: int, x2: int, y2: int, c2: int)
    requires
        0 <= x1 < w,
        0 <= y1 < h,
        0 <= c1 < 3,
        0 <= x2 < w,
        0 <= y2 < h,
        0 <= c2 < 3,
        idx(w, x1, y1, c1) == idx(w, x2, y2, c2),
    ensures
        x1 == x2,
        y1 == y2,
        c1 == c2,
{
    lemma_idx_compose(w, h, x1, y1, c1);
    lemma_idx_compose(w, h, x2, y2, c2);
}

/// The index of channel `c` of pixel (`x`, `y`).
pub(crate) fn pixel_index(w: usize, h: usize, x: usize, y: usize, c: usize) -> (i: usize)
    requires
        x < w,
        y < h,
        c < 3,
        (w as int) * (h as int) * 3 <= usize::MAX,
    ensures
        i as int == idx(w as int, x as int, y as int, c as int),
        i < w * h * 3,
{
    proof {
        lemma_idx_bounds(w as int, h as int, x as int, y as int, c as int);
        assert(0 <= (y as int) * (w as int) <= (y as int) * (w as int) + x) by (nonlinear_arith)
            requires
                0 <= x,
                0 <= y,
                0 <= w,
        ;
    }
    (y * w + x) * 3 + c
}

// ------------------------------------------------------------------
// Window sums
// ------------------------------------------------------------------

/// The sum of `f(j)` for `lo <= j < hi`.
pub open spec fn wsum(f: spec_fn(int) -> int, lo: int, hi: int) -> int
    decreases hi - lo,
{
    if hi <= lo {
        0
    } else {
        wsum(f, lo, hi - 1) + f(hi - 1)
    }
}

pub proof fn lemma_wsum_front(f: spec_fn(int) -> int, lo: int, hi: int)
    requires
        lo < hi,
    ensures
        wsum(f, lo, hi) == f(lo) + wsum(f, lo + 1, hi),
    decreases hi - lo,
{
    if hi - 1 > lo {
        lemma_wsum_front(f, lo, hi - 1);
    } else {
        assert(wsum(f, lo, lo) == 0);
        assert(wsum(f, lo + 1, hi) == 0);
    }
}

pub proof fn lemma_wsum_bounds(f: spec_fn(int) -> int, lo: int, hi: int)
    requires
        lo <= hi,
        forall|j: int| lo <= j < hi ==> 0 <= #[trigger] f(j) <= 255,
    ensures
        0 <= wsum(f, lo, hi) <= 255 * (hi - lo),
    decreases hi - lo,
{
    if hi > lo {
        lemma_wsum_bounds(f, lo, hi - 1);
    }
}

/// The average of a window as the kernels compute it: integer division,
/// truncated to a byte.
pub open spec fn window_avg(f: spec_fn(int) -> int, lo: int, hi: int) -> u8 {
    (wsum(f, lo, hi) / (hi - lo)) as u8
}

pub open spec fn min_int(a: int, b: int) -> int {
    if a < b {
        a
    } else {
        b
    }
}

pub open spec fn max_int(a: int, b: int) -> int {
    if a > b {
        a
    } else {
        b
    }
}

/// Channel `c` of row `y`, as a function of the column; columns past the
/// right edge read the last column.
pub open spec fn row_fn(data: Seq<u8>, w: int, y: int, c: int) -> spec_fn(int) -> int {
    |j: int| data[idx(w, min_int(j, w - 1), y, c)] as int
}

/// Channel `c` of column `x`, as a function of the row; rows past the
/// bottom edge read the last row.
pub open spec fn col_fn(data: Seq<u8>, w: int, h: int, x: int, c: int) -> spec_fn(int) -> int {
    |j: int| data[idx(w, x, min_int(j, h - 1), c)] as int
}

/// The sliding window of the box blur at position `p` along a line of
/// length `len`: from `p - r` (cut at 0) to `p + min(r, len - 1)`.
pub open spec fn win_lo(r: int, p: int) -> int {
    max_int(0, p - r)
}

pub open spec fn win_hi(len: int, r: int, p: int) -> int {
    p + min_int(r, len - 1) + 1
}

/// One horizontal box-blur value: the average of the window along the row.
pub open spec fn box_h_at(data: Seq<u8>, w: int, r: int, x: int, y: int, c: int) -> u8 {
    window_avg(row_fn(data, w, y, c), win_lo(r, x), win_hi(w, r, x))
}

/// One vertical box-blur value: the average of the window along the column.
pub open spec fn box_v_at(data: Seq<u8>, w: int, h: int, r: int, x: int, y: int, c: int) -> u8 {
    window_avg(col_fn(data, w, h, x, c), win_lo(r, y), win_hi(h, r, y))
}

/// The horizontal box blur of radius `r` of an image `w` wide.
pub open spec fn box_h(data: Seq<u8>, w: int, r: int) -> Seq<u8> {
    Seq::new(data.len(), |i: int| box_h_at(data, w, r, col_of(w, i), row_of(w, i), i % 3))
}

/// The vertical box blur of radius `r` of an image `w` wide and `h` high.
pub open spec fn box_v(data: Seq<u8>, w: int, h: int, r: int) -> Seq<u8> {
    Seq::new(data.len(), |i: int| box_v_at(data, w, h, r, col_of(w, i), row_of(w, i), i % 3))
}

impl Image {
    /// A copy of this image.
    pub fn duplicate(&self) -> (r: Image)
        ensures
            r.width == self.width,
            r.height == self.height,
            r.data@ == self.data@,
    {
        let data = self.data.clone();
        assert(data@ =~= self.data@);
        Image { width: self.width, height: self.height, data }
    }
}

/// A horizontal box blur of radius 0 leaves an image as it is.
pub proof fn lemma_box_h_zero(data: Seq<u8>, w: int, h: int)
    requires
        0 <= w,
        0 <= h,
        data.len() == w * h * 3,
    ensures
        box_h(data, w, 0) == data,
{
    assert forall|i: int| 0 <= i < data.len() implies #[trigger] box_h(data, w, 0)[i] == data[i] by {
        lemma_idx_decompose(w, h, i);
        let x = col_of(w, i);
        let f = row_fn(data, w, row_of(w, i), i % 3);
        assert(min_int(0, w - 1) == 0);
        assert(win_lo(0, x) == x);
        assert(win_hi(w, 0, x) == x + 1);
        assert(wsum(f, x, x) == 0);
        assert(f(x) == data[i] as int);
        assert(wsum(f, x, x + 1) == data[i] as int);
        assert((data[i] as int) / 1 == data[i] as int);
        assert(window_avg(f, x, x + 1) == data[i]);
        assert(box_h(data, w, 0)[i] == box_h_at(data, w, 0, x, row_of(w, i), i % 3));
    }
    assert(box_h(data, w, 0) =~= data);
}

/// A vertical box blur of radius 0 leaves an image as it is.
pub proof fn lemma_box_v_zero(data: Seq<u8>, w: int, h: int)
    requires
        0 <= w,
        0 <= h,
        data.len() == w * h * 3,
    ensures
        box_v(data, w, h, 0) == data,
{
    assert forall|i: int| 0 <= i < data.len() implies #[trigger] box_v(data, w, h, 0)[i] == data[i] by {
        lemma_idx_decompose(w, h, i);
        let y = row_of(w, i);
        let f = col_fn(data, w, h, col_of(w, i), i % 3);
        assert(min_int(0, h - 1) == 0);
        assert(win_lo(0, y) == y);
        assert(win_hi(h, 0, y) == y + 1);
        assert(wsum(f, y, y) == 0);
        assert(f(y) == data[i] as int);
        assert(wsum(f, y, y + 1) == data[i] as int);
        assert((data[i] as int) / 1 == data[i] as int);
        assert(window_avg(f, y, y + 1) == data[i]);
        assert(box_v(data, w, h, 0)[i] == box_v_at(data, w, h, 0, col_of(w, i), y, i % 3));
    }
    assert(box_v(data, w, h, 0) =~= data);
}

/// Horizontal box blur: each value is the average of a window of `radius`
/// pixels on each side in its row, cut at the left edge and reading the
/// last pixel past the right edge.
pub fn box_blur_horiz(src: &Image, radius: u32) -> (out: Image)
    requires
        src.wf(),
    ensures
        out.wf(),
        out.width == src.width,
        out.height == src.height,
        out.data@ == box_h(src.data@, src.width as int, radius as int),
{
    let ghost wi = src.width as int;
    let ghost hi_ = src.height as int;
    let ghost d = src.data@;
    if radius == 0 || src.width == 0 {
        proof {
            if radius == 0 {
                lemma_box_h_zero(d, wi, hi_);
            } else {
                assert(box_h(d, wi, radius as int) =~= d);
            }
        }
        return src.duplicate();
    }
    let w = src.width as usize;
    let h = src.height as usize;
    let r = radius as u64;
    let n = src.data.len();
    let mut data = src.data.clone();
    let m: u64 = if r < (w as u64) - 1 { r } else { (w as u64) - 1 };
    for y in 0..h
        invariant
            w as int == wi,
            h as int == hi_,
            wi == src.width as int,
            wi >= 1,
            r == radius,
            n == d.len(),
            d == src.data@,
            d.len() == wi * hi_ * 3,
            data@.len() == n,
            m as int == min_int(r as int, wi - 1),
            forall|x: int, yy: int, c: int|
                0 <= x < wi && 0 <= yy < y && 0 <= c < 3 ==> #[trigger] data@[idx(wi, x, yy, c)]
                    == box_h_at(d, wi, r as int, x, yy, c),
    {
        for c in 0..3usize
            invariant
                w as int == wi,
                h as int == hi_,
                wi == src.width as int,
                wi >= 1,
                y < h,
                r == radius,
                n == d.len(),
                d == src.data@,
                d.len() == wi * hi_ * 3,
                data@.len() == n,
                m as int == min_int(r as int, wi - 1),
                forall|x: int, yy: int, cc: int|
                    0 <= x < wi && 0 <= cc < 3 && (0 <= yy < y || (yy == y && 0 <= cc < c))
                        ==> #[trigger] data@[idx(wi, x, yy, cc)] == box_h_at(d, wi, r as int, x, yy, cc),
        {
            let ghost f = row_fn(d, wi, y as int, c as int);
            let mut sum: u64 = 0;
            let mut j: u64 = 0;
            while j <= m
                invariant
                    w as int == wi,
                    h as int == hi_,
                    wi == src.width as int,
                    y < h,
                    c < 3,
                    wi >= 1,
                    n == d.len(),
                    d == src.data@,
                    d.len() == wi * hi_ * 3,
                    m as int == min_int(r as int, wi - 1),
                    f == row_fn(d, wi, y as int, c as int),
                    j <= m + 1,
                    sum as int == wsum(f, 0, j as int),
                    sum <= 255 * j,
                decreases m + 1 - j,
            {
                let p = pixel_index(w, h, j as usize, y, c);
                proof {
                    assert(min_int(j as int, wi - 1) == j);
                    assert(f(j as int) == src.data@[p as int] as int);
                }
                sum = sum + src.data[p] as u64;
                j = j + 1;
            }
            let mut cnt: u64 = m + 1;
            let p0 = pixel_index(w, h, 0, y, c);
            let ghost before = data@;
            data[p0] = (sum / cnt) as u8;
            proof {
                assert(win_lo(r as int, 0) == 0);
                assert(win_hi(wi, r as int, 0) == m + 1);
                assert(data@[p0 as int] == box_h_at(d, wi, r as int, 0, y as int, c as int));
                assert forall|x: int, yy: int, cc: int|
                    0 <= x < wi && 0 <= cc < 3 && (0 <= yy < y || (yy == y && 0 <= cc < c))
                    implies #[trigger] data@[idx(wi, x, yy, cc)] == box_h_at(d, wi, r as int, x, yy, cc) by {
                    lemma_idx_bounds(wi, hi_, x, yy, cc);
                    if idx(wi, x, yy, cc) == idx(wi, 0, y as int, c as int) {
                        lemma_idx_injective(wi, hi_, x, yy, cc, 0, y as int, c as int);
                    }
                    assert(before[idx(wi, x, yy, cc)] == box_h_at(d, wi, r as int, x, yy, cc));
                }
            }
            let mut x: usize = 1;
            while x < w
                invariant
                    w as int == wi,
                    h as int == hi_,
                    wi == src.width as int,
                    y < h,
                    c < 3,
                    wi >= 1,
                    1 <= x <= w,
                    r == radius,
                    n == d.len(),
                    d == src.data@,
                    d.len() == wi * hi_ * 3,
                    data@.len() == n,
                    m as int == min_int(r as int, wi - 1),
                    f == row_fn(d, wi, y as int, c as int),
                    sum as int == wsum(f, win_lo(r as int, x - 1), win_hi(wi, r as int, x - 1)),
                    cnt as int == win_hi(wi, r as int, x - 1) - win_lo(r as int, x - 1),
                    forall|xx: int, yy: int, cc: int|
                        0 <= xx < wi && 0 <= cc < 3 && (0 <= yy < y || (yy == y && 0 <= cc < c) || (
                        yy == y && cc == c && 0 <= xx < x)) ==> #[trigger] data@[idx(wi, xx, yy, cc)]
                            == box_h_at(d, wi, r as int, xx, yy, cc),
                decreases w - x,
            {
                let ghost lo0 = win_lo(r as int, x - 1);
                let ghost hi0 = win_hi(wi, r as int, x - 1);
                proof {
                    lemma_wsum_bounds(f, lo0, hi0);
                }
                let xr = (x as u64) + r;
                let add_x: u64 = if xr < (w as u64) - 1 { xr } else { (w as u64) - 1 };
                let pa = pixel_index(w, h, add_x as usize, y, c);
                proof {
                    assert(hi0 + 1 == win_hi(wi, r as int, x as int));
                    assert(min_int(hi0, wi - 1) == add_x);
                }
                proof {
                    assert(f(hi0) == src.data@[pa as int] as int);
                    assert(wsum(f, lo0, hi0 + 1) == wsum(f, lo0, hi0) + f(hi0));
                }
                sum = sum + src.data[pa] as u64;
                cnt = cnt + 1;
                if (x as u64) > r {
                    let rem = (x as u64) - r - 1;
                    let pr = pixel_index(w, h, rem as usize, y, c);
                    proof {
                        lemma_wsum_front(f, lo0, hi0 + 1);
                        lemma_wsum_bounds(f, lo0 + 1, hi0 + 1);
                        assert(lo0 == rem);
                        assert(min_int(rem as int, wi - 1) == rem);
                        assert(f(lo0) == src.data@[pr as int] as int);
                        assert(lo0 + 1 == win_lo(r as int, x as int));
                    }
                    sum = sum - src.data[pr] as u64;
                    cnt = cnt - 1;
                } else {
                    assert(lo0 == win_lo(r as int, x as int));
                }
                let px = pixel_index(w, h, x, y, c);
                let ghost before = data@;
                data[px] = (sum / cnt) as u8;
                proof {
                    assert(data@[px as int] == box_h_at(d, wi, r as int, x as int, y as int, c as int));
                    assert forall|xx: int, yy: int, cc: int|
                        0 <= xx < wi && 0 <= cc < 3 && (0 <= yy < y || (yy == y && 0 <= cc < c) || (
                        yy == y && cc == c && 0 <= xx < x + 1))
                        implies #[trigger] data@[idx(wi, xx, yy, cc)] == box_h_at(d, wi, r as int, xx, yy, cc) by {
                        lemma_idx_bounds(wi, hi_, xx, yy, cc);
                        if idx(wi, xx, yy, cc) == idx(wi, x as int, y as int, c as int) {
                            lemma_idx_injective(wi, hi_, xx, yy, cc, x as int, y as int, c as int);
                        } else {
                            assert(before[idx(wi, xx, yy, cc)] == box_h_at(d, wi, r as int, xx, yy, cc));
                        }
                    }
                }
                x = x + 1;
            }
        }
    }
    proof {
        assert forall|i: int| 0 <= i < d.len() implies #[trigger] data@[i] == box_h(d, wi, radius as int)[i] by {
            lemma_idx_decompose(wi, hi_, i);
            assert(data@[idx(wi, col_of(wi, i), row_of(wi, i), i % 3)] == box_h_at(
                d,
                wi,
                radius as int,
                col_of(wi, i),
                row_of(wi, i),
                i % 3,
            ));
        }
        assert(data@ =~= box_h(d, wi, radius as int));
    }
    Image { width: src.width, height: src.height, data }
}

/// Vertical box blur: each value is the average of a window of `radius`
/// pixels above and below in its column, cut at the top edge and reading
/// the last pixel past the bottom edge.
pub fn box_blur_vert(src: &Image, radius: u32) -> (out: Image)
    requires
        src.wf(),
    ensures
        out.wf(),
        out.width == src.width,
        out.height == src.height,
        out.data@ == box_v(src.data@, src.width as int, src.height as int, radius as int),
{
    let ghost wi = src.width as int;
    let ghost hi_ = src.height as int;
    let ghost d = src.data@;
    if radius == 0 || src.height == 0 {
        proof {
            if radius == 0 {
                lemma_box_v_zero(d, wi, hi_);
            } else {
                assert(wi * 0 * 3 == 0);
                assert(box_v(d, wi, hi_, radius as int) =~= d);
            }
        }
        return src.duplicate();
    }
    let w = src.width as usize;
    let h = src.height as usize;
    let r = radius as u64;
    let n = src.data.len();
    let mut data = src.data.clone();
    let m: u64 = if r < (h as u64) - 1 { r } else { (h as u64) - 1 };
    for x in 0..w
        invariant
            w as int == wi,
            h as int == hi_,
            hi_ == src.height as int,
            hi_ >= 1,
            r == radius,
            n == d.len(),
            d == src.data@,
            d.len() == wi * hi_ * 3,
            data@.len() == n,
            m as int == min_int(r as int, hi_ - 1),
            forall|xx: int, yy: int, c: int|
                0 <= xx < x && 0 <= yy < hi_ && 0 <= c < 3 ==> #[trigger] data@[idx(wi, xx, yy, c)]
                    == box_v_at(d, wi, hi_, r as int, xx, yy, c),
    {
        for c in 0..3usize
            invariant
                w as int == wi,
                h as int == hi_,
                hi_ == src.height as int,
                hi_ >= 1,
                x < w,
                r == radius,
                n == d.len(),
                d == src.data@,
                d.len() == wi * hi_ * 3,
                data@.len() == n,
                m as int == min_int(r as int, hi_ - 1),
                forall|xx: int, yy: int, cc: int|
                    0 <= yy < hi_ && 0 <= cc < 3 && (0 <= xx < x || (xx == x && 0 <= cc < c))
                        ==> #[trigger] data@[idx(wi, xx, yy, cc)] == box_v_at(d, wi, hi_, r as int, xx, yy, cc),
        {
            let ghost f = col_fn(d, wi, hi_, x as int, c as int);
            let mut sum: u64 = 0;
            let mut j: u64 = 0;
            while j <= m
                invariant
                    w as int == wi,
                    h as int == hi_,
                    hi_ == src.height as int,
                    x < w,
                    c < 3,
                    hi_ >= 1,
                    n == d.len(),
                    d == src.data@,
                    d.len() == wi * hi_ * 3,
                    m as int == min_int(r as int, hi_ - 1),
                    f == col_fn(d, wi, hi_, x as int, c as int),
                    j <= m + 1,
                    sum as int == wsum(f, 0, j as int),
                    sum <= 255 * j,
                decreases m + 1 - j,
            {
                let p = pixel_index(w, h, x, j as usize, c);
                proof {
                    assert(min_int(j as int, hi_ - 1) == j);
                    assert(f(j as int) == src.data@[p as int] as int);
                }
                sum = sum + src.data[p] as u64;
                j = j + 1;
            }
            let mut cnt: u64 = m + 1;
            let p0 = pixel_index(w, h, x, 0, c);
            let ghost before = data@;
            data[p0] = (sum / cnt) as u8;
            proof {
                assert(win_lo(r as int, 0) == 0);
                assert(win_hi(hi_, r as int, 0) == m + 1);
                assert(data@[p0 as int] == box_v_at(d, wi, hi_, r as int, x as int, 0, c as int));
                assert forall|xx: int, yy: int, cc: int|
                    0 <= yy < hi_ && 0 <= cc < 3 && (0 <= xx < x || (xx == x && 0 <= cc < c))
                    implies #[trigger] data@[idx(wi, xx, yy, cc)] == box_v_at(d, wi, hi_, r as int, xx, yy, cc) by {
                    lemma_idx_bounds(wi, hi_, xx, yy, cc);
                    if idx(wi, xx, yy, cc) == idx(wi, x as int, 0, c as int) {
                        lemma_idx_injective(wi, hi_, xx, yy, cc, x as int, 0, c as int);
                    }
                    assert(before[idx(wi, xx, yy, cc)] == box_v_at(d, wi, hi_, r as int, xx, yy, cc));
                }
            }
            let mut y: usize = 1;
            while y < h
                invariant
                    w as int == wi,
                    h as int == hi_,
                    hi_ == src.height as int,
                    x < w,
                    c < 3,
                    hi_ >= 1,
                    1 <= y <= h,
                    r == radius,
                    n == d.len(),
                    d == src.data@,
                    d.len() == wi * hi_ * 3,
                    data@.len() == n,
                    m as int == min_int(r as int, hi_ - 1),
                    f == col_fn(d, wi, hi_, x as int, c as int),
                    sum as int == wsum(f, win_lo(r as int, y - 1), win_hi(hi_, r as int, y - 1)),
                    cnt as int == win_hi(hi_, r as int, y - 1) - win_lo(r as int, y - 1),
                    forall|xx: int, yy: int, cc: int|
                        0 <= yy < hi_ && 0 <= cc < 3 && (0 <= xx < x || (xx == x && 0 <= cc < c) || (
                        xx == x && cc == c && 0 <= yy < y)) ==> #[trigger] data@[idx(wi, xx, yy, cc)]
                            == box_v_at(d, wi, hi_, r as int, xx, yy, cc),
                decreases h - y,
            {
                let ghost lo0 = win_lo(r as int, y - 1);
                let ghost hi0 = win_hi(hi_, r as int, y - 1);
                proof {
                    lemma_wsum_bounds(f, lo0, hi0);
                }
                let yr = (y as u64) + r;
                let add_y: u64 = if yr < (h as u64) - 1 { yr } else { (h as u64) - 1 };
                let pa = pixel_index(w, h, x, add_y as usize, c);
                proof {
                    assert(hi0 + 1 == win_hi(hi_, r as int, y as int));
                    assert(min_int(hi0, hi_ - 1) == add_y);
                    assert(f(hi0) == src.data@[pa as int] as int);
                    assert(wsum(f, lo0, hi0 + 1) == wsum(f, lo0, hi0) + f(hi0));
                }
                sum = sum + src.data[pa] as u64;
                cnt = cnt + 1;
                if (y as u64) > r {
                    let rem = (y as u64) - r - 1;
                    let pr = pixel_index(w, h, x, rem as usize, c);
                    proof {
                        lemma_wsum_front(f, lo0, hi0 + 1);
                        lemma_wsum_bounds(f, lo0 + 1, hi0 + 1);
                        assert(lo0 == rem);
                        assert(min_int(rem as int, hi_ - 1) == rem);
                        assert(f(lo0) == src.data@[pr as int] as int);
                        assert(lo0 + 1 == win_lo(r as int, y as int));
                    }
                    sum = sum - src.data[pr] as u64;
                    cnt = cnt - 1;
                } else {
                    assert(lo0 == win_lo(r as int, y as int));
                }
                let px = pixel_index(w, h, x, y, c);
                let ghost before = data@;
                data[px] = (sum / cnt) as u8;
                proof {
                    assert(data@[px as int] == box_v_at(d, wi, hi_, r as int, x as int, y as int, c as int));
                    assert forall|xx: int, yy: int, cc: int|
                        0 <= yy < hi_ && 0 <= cc < 3 && (0 <= xx < x || (xx == x && 0 <= cc < c) || (
                        xx == x && cc == c && 0 <= yy < y + 1))
                        implies #[trigger] data@[idx(wi, xx, yy, cc)] == box_v_at(d, wi, hi_, r as int, xx, yy, cc) by {
                        lemma_idx_bounds(wi, hi_, xx, yy, cc);
                        if idx(wi, xx, yy, cc) == idx(wi, x as int, y as int, c as int) {
                            lemma_idx_injective(wi, hi_, xx, yy, cc, x as int, y as int, c as int);
                        } else {
                            assert(before[idx(wi, xx, yy, cc)] == box_v_at(d, wi, hi_, r as int, xx, yy, cc));
                        }
                    }
                }
                y = y + 1;
            }
        }
    }
    proof {
        assert forall|i: int| 0 <= i < d.len() implies #[trigger] data@[i] == box_v(d, wi, hi_, radius as int)[i] by {
            lemma_idx_decompose(wi, hi_, i);
            assert(data@[idx(wi, col_of(wi, i), row_of(wi, i), i % 3)] == box_v_at(
                d,
                wi,
                hi_,
                radius as int,
                col_of(wi, i),
                row_of(wi, i),
                i % 3,
            ));
        }
        assert(data@ =~= box_v(d, wi, hi_, radius as int));
    }
    Image { width: src.width, height: src.height, data }
}

/// The three-pass Gaussian approximation as the kernels run it: horizontal,
/// vertical, horizontal, vertical box blurs of the same radius.
pub open spec fn gaussian_approx(data: Seq<u8>, w: int, h: int, r: int) -> Seq<u8> {
    box_v(box_h(box_v(box_h(data, w, r), w, h, r), w, r), w, h, r)
}

/// Approximates a Gaussian blur of radius `radius` by box blurs.
pub fn fast_gaussian_blur(img: &Image, radius: u32) -> (out: Image)
    requires
        img.wf(),
    ensures
        out.wf(),
        out.width == img.width,
        out.height == img.height,
        out.data@ == gaussian_approx(img.data@, img.width as int, img.height as int, radius as int),
{
    if radius == 0 {
        proof {
            let d = img.data@;
            let w = img.width as int;
            let h = img.height as int;
            lemma_box_h_zero(d, w, h);
            lemma_box_v_zero(d, w, h);
        }
        return img.duplicate();
    }
    let p1 = box_blur_horiz(img, radius);
    let p2 = box_blur_vert(&p1, radius);
    let p3 = box_blur_horiz(&p2, radius);
    box_blur_vert(&p3, radius)
}

// ------------------------------------------------------------------
// Clamped line blurs
// ------------------------------------------------------------------

/// `v` limited to `lo..=hi`.
pub open spec fn clamp_int(v: int, lo: int, hi: int) -> int {
    if v < lo {
        lo
    } else if v > hi {
        hi
    } else {
        v
    }
}

/// Channel `c` along the line through (`x`, `y`) with step (`dx`, `dy`),
/// as a function of the offset; coordinates are clamped to the image.
pub open spec fn line_fn(data: Seq<u8>, w: int, h: int, dx: int, dy: int, x: int, y: int, c: int) -> spec_fn(int) -> int {
    |k: int| data[idx(w, clamp_int(x + k * dx, 0, w - 1), clamp_int(y + k * dy, 0, h - 1), c)] as int
}

/// The average over offsets `-r..=r` along the line (`dx`, `dy`) through a pixel.
pub open spec fn line_at(data: Seq<u8>, w: int, h: int, r: int, dx: int, dy: int, x: int, y: int, c: int) -> u8 {
    window_avg(line_fn(data, w, h, dx, dy, x, y, c), -r, r + 1)
}

/// Every pixel replaced by the average along the line (`dx`, `dy`) of radius `r`.
pub open spec fn line_blur(data: Seq<u8>, w: int, h: int, r: int, dx: int, dy: int) -> Seq<u8> {
    Seq::new(data.len(), |i: int| line_at(data, w, h, r, dx, dy, col_of(w, i), row_of(w, i), i % 3))
}

fn clamp_coord(v: i64, len: usize) -> (r: usize)
    requires
        len >= 1,
        len <= u32::MAX,
    ensures
        r as int == clamp_int(v as int, 0, len - 1),
{
    if v < 0 {
        0
    } else if v > (len as i64) - 1 {
        len - 1
    } else {
        v as usize
    }
}

/// Averages each pixel over `2 * radius + 1` samples along direction
/// (`dx`, `dy`), clamping sample coordinates to the image.
fn line_blur_exec(src: &Image, radius: u32, dx: i64, dy: i64) -> (out: Image)
    requires
        src.wf(),
        0 <= dx <= 1,
        0 <= dy <= 1,
    ensures
        out.wf(),
        out.width == src.width,
        out.height == src.height,
        out.data@ == line_blur(src.data@, src.width as int, src.height as int, radius as int, dx as int, dy as int),
{
    let ghost wi = src.width as int;
    let ghost hi_ = src.height as int;
    let ghost d = src.data@;
    let ghost target = line_blur(d, wi, hi_, radius as int, dx as int, dy as int);
    let w = src.width as usize;
    let h = src.height as usize;
    let r = radius as i64;
    let count: u64 = 2 * (radius as u64) + 1;
    let n = src.data.len();
    let mut data: Vec<u8> = Vec::new();
    assert(0 * wi * 3 == 0);
    for y in 0..h
        invariant
            w as int == wi,
            h as int == hi_,
            wi == src.width as int,
            hi_ == src.height as int,
            r == radius as int,
            count == 2 * r + 1,
            0 <= dx <= 1,
            0 <= dy <= 1,
            d == src.data@,
            d.len() == wi * hi_ * 3,
            n == d.len(),
            target == line_blur(d, wi, hi_, radius as int, dx as int, dy as int),
            data@.len() == y * wi * 3,
            data@ =~= target.take(data@.len() as int),
    {
        for x in 0..w
            invariant
                w as int == wi,
                h as int == hi_,
                wi == src.width as int,
                hi_ == src.height as int,
                y < h,
                r == radius as int,
                count == 2 * r + 1,
                0 <= dx <= 1,
                0 <= dy <= 1,
                d == src.data@,
                d.len() == wi * hi_ * 3,
                n == d.len(),
            n == d.len(),
                target == line_blur(d, wi, hi_, radius as int, dx as int, dy as int),
                data@.len() == (y * wi + x) * 3,
                data@ =~= target.take(data@.len() as int),
        {
            for c in 0..3usize
                invariant
                    w as int == wi,
                    h as int == hi_,
                    wi == src.width as int,
                    hi_ == src.height as int,
                    y < h,
                    x < w,
                    r == radius as int,
                    count == 2 * r + 1,
                    0 <= dx <= 1,
                    0 <= dy <= 1,
                    d == src.data@,
                    d.len() == wi * hi_ * 3,
                    n == d.len(),
                n == d.len(),
            n == d.len(),
                    target == line_blur(d, wi, hi_, radius as int, dx as int, dy as int),
                    data@.len() == (y * wi + x) * 3 + c,
                    data@ =~= target.take(data@.len() as int),
            {
                let ghost f = line_fn(d, wi, hi_, dx as int, dy as int, x as int, y as int, c as int);
                let mut sum: u64 = 0;
                let mut k: u64 = 0;
                while k < count
                    invariant
                        w as int == wi,
                        h as int == hi_,
                        wi == src.width as int,
                        hi_ == src.height as int,
                        y < h,
                        x < w,
                        c < 3,
                        r == radius as int,
                        count == 2 * r + 1,
                        0 <= dx <= 1,
                        0 <= dy <= 1,
                        d == src.data@,
                        d.len() == wi * hi_ * 3,
                        n == d.len(),
                    n == d.len(),
                n == d.len(),
            n == d.len(),
                        f == line_fn(d, wi, hi_, dx as int, dy as int, x as int, y as int, c as int),
                        k <= count,
                        sum as int == wsum(f, -r, k - r),
                        sum <= 255 * k,
                    decreases count - k,
                {
                    let off = (k as i64) - r;
                    let ox: i64 = if dx == 1 { off } else { 0 };
                    let oy: i64 = if dy == 1 { off } else { 0 };
                    proof {
                        assert(ox == off * dx) by (nonlinear_arith)
                            requires
                                0 <= dx <= 1,
                                ox == (if dx == 1 { off } else { 0 }),
                        ;
                        assert(oy == off * dy) by (nonlinear_arith)
                            requires
                                0 <= dy <= 1,
                                oy == (if dy == 1 { off } else { 0 }),
                        ;
                    }
                    let sx = clamp_coord((x as i64) + ox, w);
                    let sy = clamp_coord((y as i64) + oy, h);
                    let p = pixel_index(w, h, sx, sy, c);
                    proof {
                        assert(f(off as int) == src.data@[p as int] as int);
                        assert(wsum(f, -r, k + 1 - r) == wsum(f, -r, k - r) + f(k - r));
                    }
                    sum = sum + src.data[p] as u64;
                    k = k + 1;
                }
                let ghost before = data@;
                data.push((sum / count) as u8);
                proof {
                    lemma_idx_bounds(wi, hi_, x as int, y as int, c as int);
                    lemma_idx_compose(wi, hi_, x as int, y as int, c as int);
                    assert(target[idx(wi, x as int, y as int, c as int)] == line_at(
                        d,
                        wi,
                        hi_,
                        radius as int,
                        dx as int,
                        dy as int,
                        x as int,
                        y as int,
                        c as int,
                    ));
                    assert(data@ =~= target.take(data@.len() as int));
                }
            }
        }
        assert((y * wi + wi) * 3 == (y + 1) * wi * 3) by (nonlinear_arith);
    }
    assert(h * wi * 3 == d.len()) by (nonlinear_arith)
        requires
            h == hi_,
            d.len() == wi * hi_ * 3,
            n == d.len(),
    ;
    assert(target.take(d.len() as int) =~= target);
    Image { width: src.width, height: src.height, data }
}

/// Directional motion blur: each pixel averaged over `2 * radius + 1`
/// samples along the 45-degree diagonal, coordinates clamped to the image.
pub fn motion_blur(img: &Image, radius: u32) -> (out: Image)
    requires
        img.wf(),
    ensures
        out.wf(),
        out.width == img.width,
        out.height == img.height,
        out.data@ == line_blur(img.data@, img.width as int, img.height as int, radius as int, 1, 1),
{
    line_blur_exec(img, radius, 1, 1)
}

/// Depth-of-field blur: a horizontal then a vertical average over
/// `2 * radius + 1` samples, coordinates clamped to the image.
pub fn dof_blur(img: &Image, radius: u32) -> (out: Image)
    requires
        img.wf(),
    ensures
        out.wf(),
        out.width == img.width,
        out.height == img.height,
        out.data@ == line_blur(
            line_blur(img.data@, img.width as int, img.height as int, radius as int, 1, 0),
            img.width as int,
            img.height as int,
            radius as int,
            0,
            1,
        ),
{
    let pass1 = line_blur_exec(img, radius, 1, 0);
    line_blur_exec(&pass1, radius, 0, 1)
}

// ------------------------------------------------------------------
// Lookup tables
// ------------------------------------------------------------------

/// Every byte mapped through `lut`.
pub open spec fn lut_applied(data: Seq<u8>, lut: Seq<u8>) -> Seq<u8> {
    Seq::new(data.len(), |i: int| lut[data[i] as int])
}

/// Maps every channel value of the image through a 256-entry table.
pub fn apply_lut(img: &Image, lut: &[u8; 256]) -> (out: Image)
    requires
        img.wf(),
    ensures
        out.wf(),
        out.width == img.width,
        out.height == img.height,
        out.data@ == lut_applied(img.data@, lut@),
{
    let mut data: Vec<u8> = Vec::new();
    let n = img.data.len();
    for i in 0..n
        invariant
            n == img.data@.len(),
            data@ =~= lut_applied(img.data@, lut@).take(i as int),
    {
        let v = img.data[i];
        data.push(lut[v as usize]);
    }
    assert(lut_applied(img.data@, lut@).take(n as int) =~= lut_applied(img.data@, lut@));
    Image { width: img.width, height: img.height, data }
}

// ------------------------------------------------------------------
// Uniform images
// ------------------------------------------------------------------

/// Every pixel has the same colour: each byte equals the same channel of the first pixel.
pub open spec fn uniform(data: Seq<u8>) -> bool {
    forall|i: int| 0 <= i < data.len() ==> #[trigger] data[i] == data[i % 3]
}

proof fn lemma_wsum_const(f: spec_fn(int) -> int, lo: int, hi: int, v: int)
    requires
        lo <= hi,
        forall|j: int| lo <= j < hi ==> #[trigger] f(j) == v,
    ensures
        wsum(f, lo, hi) == v * (hi - lo),
    decreases hi - lo,
{
    if hi > lo {
        lemma_wsum_const(f, lo, hi - 1, v);
        assert(wsum(f, lo, hi) == wsum(f, lo, hi - 1) + f(hi - 1));
        assert(f(hi - 1) == v);
        assert(v * (hi - 1 - lo) + v == v * (hi - lo)) by (nonlinear_arith);
    } else {
        assert(v * (hi - lo) == 0) by (nonlinear_arith)
            requires
                hi == lo,
        ;
    }
}

/// The average of a window of equal bytes is that byte.
proof fn lemma_window_avg_const(f: spec_fn(int) -> int, lo: int, hi: int, v: u8)
    requires
        lo < hi,
        forall|j: int| lo <= j < hi ==> #[trigger] f(j) == v as int,
    ensures
        window_avg(f, lo, hi) == v,
{
    lemma_wsum_const(f, lo, hi, v as int);
    let n = hi - lo;
    assert((v as int) * n / n == v as int) by (nonlinear_arith)
        requires
            n > 0,
    ;
}

proof fn lemma_box_h_uniform(data: Seq<u8>, w: int, h: int, r: int)
    requires
        0 <= w,
        0 <= h,
        0 <= r,
        data.len() == w * h * 3,
        uniform(data),
    ensures
        box_h(data, w, r) == data,
{
    assert forall|i: int| 0 <= i < data.len() implies #[trigger] box_h(data, w, r)[i] == data[i] by {
        lemma_idx_decompose(w, h, i);
        let x = col_of(w, i);
        let y = row_of(w, i);
        let c = i % 3;
        let f = row_fn(data, w, y, c);
        assert forall|j: int| win_lo(r, x) <= j < win_hi(w, r, x) implies #[trigger] f(j) == data[c] as int by {
            let xx = min_int(j, w - 1);
            lemma_idx_compose(w, h, xx, y, c);
            lemma_idx_bounds(w, h, xx, y, c);
            assert(data[idx(w, xx, y, c)] == data[idx(w, xx, y, c) % 3]);
        }
        lemma_window_avg_const(f, win_lo(r, x), win_hi(w, r, x), data[c]);
        assert(data[i] == data[i % 3]);
    }
    assert(box_h(data, w, r) =~= data);
}

proof fn lemma_box_v_uniform(data: Seq<u8>, w: int, h: int, r: int)
    requires
        0 <= w,
        0 <= h,
        0 <= r,
        data.len() == w * h * 3,
        uniform(data),
    ensures
        box_v(data, w, h, r) == data,
{
    assert forall|i: int| 0 <= i < data.len() implies #[trigger] box_v(data, w, h, r)[i] == data[i] by {
        lemma_idx_decompose(w, h, i);
        let x = col_of(w, i);
        let y = row_of(w, i);
        let c = i % 3;
        let f = col_fn(data, w, h, x, c);
        assert forall|j: int| win_lo(r, y) <= j < win_hi(h, r, y) implies #[trigger] f(j) == data[c] as int by {
            let yy = min_int(j, h - 1);
            lemma_idx_compose(w, h, x, yy, c);
            lemma_idx_bounds(w, h, x, yy, c);
            assert(data[idx(w, x, yy, c)] == data[idx(w, x, yy, c) % 3]);
        }
        lemma_window_avg_const(f, win_lo(r, y), win_hi(h, r, y), data[c]);
        assert(data[i] == data[i % 3]);
    }
    assert(box_v(data, w, h, r) =~= data);
}

proof fn lemma_line_blur_uniform(data: Seq<u8>, w: int, h: int, r: int, dx: int, dy: int)
    requires
        0 <= w,
        0 <= h,
        0 <= r,
        data.len() == w * h * 3,
        uniform(data),
    ensures
        line_blur(data, w, h, r, dx, dy) == data,
{
    assert forall|i: int| 0 <= i < data.len() implies #[trigger] line_blur(data, w, h, r, dx, dy)[i] == data[i] by {
        lemma_idx_decompose(w, h, i);
        let x = col_of(w, i);
        let y = row_of(w, i);
        let c = i % 3;
        let f = line_fn(data, w, h, dx, dy, x, y, c);
        assert forall|k: int| -r <= k < r + 1 implies #[trigger] f(k) == data[c] as int by {
            let xx = clamp_int(x + k * dx, 0, w - 1);
            let yy = clamp_int(y + k * dy, 0, h - 1);
            lemma_idx_compose(w, h, xx, yy, c);
            lemma_idx_bounds(w, h, xx, yy, c);
            assert(data[idx(w, xx, yy, c)] == data[idx(w, xx, yy, c) % 3]);
        }
        lemma_window_avg_const(f, -r, r + 1, data[c]);
        assert(data[i] == data[i % 3]);
    }
    assert(line_blur(data, w, h, r, dx, dy) =~= data);
}

/// Blurring an image of one colour leaves it as it is: each box blur, each
/// clamped line blur, and the Gaussian approximation.
pub proof fn lemma_blurs_keep_uniform(data: Seq<u8>, w: int, h: int, r: int, dx: int, dy: int)
    requires
        0 <= w,
        0 <= h,
        0 <= r,
        data.len() == w * h * 3,
        uniform(data),
    ensures
        box_h(data, w, r) == data,
        box_v(data, w, h, r) == data,
        line_blur(data, w, h, r, dx, dy) == data,
        gaussian_approx(data, w, h, r) == data,
{
    lemma_box_h_uniform(data, w, h, r);
    lemma_box_v_uniform(data, w, h, r);
    lemma_line_blur_uniform(data, w, h, r, dx, dy);
}

// ------------------------------------------------------------------
// Lookup-table laws
// ------------------------------------------------------------------

/// The table that maps through `a` and then through `b`.
pub open spec fn lut_then(a: Seq<u8>, b: Seq<u8>) -> Seq<u8> {
    Seq::new(256, |k: int| b[a[k] as int])
}

/// Mapping through one table and then another is mapping through their composition.
pub proof fn lemma_lut_compose(data: Seq<u8>, a: Seq<u8>, b: Seq<u8>)
    requires
        a.len() == 256,
        b.len() == 256,
    ensures
        lut_applied(lut_applied(data, a), b) == lut_applied(data, lut_then(a, b)),
{
    assert(lut_applied(lut_applied(data, a), b) =~= lut_applied(data, lut_then(a, b)));
}

/// The table that maps every value to itself.
pub open spec fn identity_lut() -> Seq<u8> {
    Seq::new(256, |k: int| k as u8)
}

/// Mapping through the identity table leaves an image as it is.
pub proof fn lemma_lut_identity(data: Seq<u8>)
    ensures
        lut_applied(data, identity_lut()) == data,
{
    assert(lut_applied(data, identity_lut()) =~= data);
}

} // verus!
