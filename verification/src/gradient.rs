//! Edge detection over the screenshot, and the magnet that snaps the cursor to nearby edges.
//!
//! Brightness, gradient and score are the caller's: what is computed here is which pixels go
//! into each value, where the value goes, and which one is chosen.

use crate::screenshot::{Rgb, Screenshot};
use crate::shrink::clamped;
use vstd::arithmetic::div_mod::{
    lemma_fundamental_div_mod, lemma_fundamental_div_mod_converse, lemma_mod_pos_bound,
    lemma_multiply_divide_lt,
};
use vstd::prelude::*;

verus! {

/// Where the pixel nearest to `x`, `y` is in a row-by-row image of `w` by `h`.
pub open spec fn clamped_index(x: int, y: int, w: int, h: int) -> int {
    clamped(y, h - 1) * w + clamped(x, w - 1)
}

proof fn lemma_clamped_index(x: int, y: int, w: int, h: int)
    requires
        w > 0,
        h > 0,
    ensures
        0 <= clamped(y, h - 1) * w,
        0 <= clamped_index(x, y, w, h) < w * h,
{
    let (cx, cy) = (clamped(x, w - 1), clamped(y, h - 1));
    assert(0 <= cy * w && cy * w + cx < w * h) by (nonlinear_arith)
        requires
            0 <= cx < w,
            0 <= cy < h,
    ;
}

/// The index of the pixel nearest to `x`, `y` in a row-by-row image.
pub fn clamped_idx(x: i64, y: i64, w: u32, h: u32) -> (r: usize)
    requires
        w > 0,
        h > 0,
        w * h <= usize::MAX,
    ensures
        r == clamped_index(x as int, y as int, w as int, h as int),
        r < w * h,
{
    proof {
        lemma_clamped_index(x as int, y as int, w as int, h as int);
    }
    let cx: usize = if x < 0 {
        0
    } else if x >= w as i64 {
        (w - 1) as usize
    } else {
        x as usize
    };
    let cy: usize = if y < 0 {
        0
    } else if y >= h as i64 {
        (h - 1) as usize
    } else {
        y as usize
    };
    cy * w as usize + cx
}

/// The eight values around one.
#[derive(Debug)]
pub struct Neighborhood<G> {
    pub north_west: G,
    pub north: G,
    pub north_east: G,
    pub west: G,
    pub east: G,
    pub south_west: G,
    pub south: G,
    pub south_east: G,
}

/// The values around `x`, `y`; beyond the border of the image the nearest pixel stands in.
pub open spec fn around<G>(gray: Seq<G>, w: int, h: int, x: int, y: int) -> Neighborhood<G> {
    Neighborhood {
        north_west: gray[clamped_index(x - 1, y - 1, w, h)],
        north: gray[clamped_index(x, y - 1, w, h)],
        north_east: gray[clamped_index(x + 1, y - 1, w, h)],
        west: gray[clamped_index(x - 1, y, w, h)],
        east: gray[clamped_index(x + 1, y, w, h)],
        south_west: gray[clamped_index(x - 1, y + 1, w, h)],
        south: gray[clamped_index(x, y + 1, w, h)],
        south_east: gray[clamped_index(x + 1, y + 1, w, h)],
    }
}

/// `gray` holds what `brightness` gives for the color of every pixel, row by row.
pub open spec fn is_luminance<G, F: Fn(Rgb) -> G>(
    brightness: F,
    img: Screenshot,
    gray: Seq<G>,
) -> bool {
    &&& gray.len() == img.width * img.height
    &&& forall|i: int|
        0 <= i < gray.len() ==> call_ensures(
            brightness,
            ((img.pixels@[4 * i], img.pixels@[4 * i + 1], img.pixels@[4 * i + 2]),),
            #[trigger] gray[i],
        )
}

/// The brightness of every pixel, row by row.
pub fn luminance<G, F: Fn(Rgb) -> G>(img: &Screenshot, brightness: F) -> (r: Vec<G>)
    requires
        img.inv(),
        forall|c: Rgb| call_requires(brightness, (c,)),
    ensures
        is_luminance(brightness, *img, r@),
{
    let mut out: Vec<G> = Vec::new();
    let count: usize = img.pixels.len() / 4;
    let mut i: usize = 0;
    while i < count
        invariant
            img.inv(),
            count == img.width * img.height,
            i <= count,
            out@.len() == i,
            forall|c: Rgb| call_requires(brightness, (c,)),
            forall|k: int|
                0 <= k < i ==> call_ensures(
                    brightness,
                    ((img.pixels@[4 * k], img.pixels@[4 * k + 1], img.pixels@[4 * k + 2]),),
                    #[trigger] out@[k],
                ),
        decreases count - i,
    {
        assert(4 * i + 4 <= img.pixels.len() <= usize::MAX);
        let c: Rgb = (img.pixels[4 * i], img.pixels[4 * i + 1], img.pixels[4 * i + 2]);
        let value = brightness(c);
        out.push(value);
        i = i + 1;
    }
    out
}

/// `out` holds the gradient of the rows from `y0` up to but not at `y1`, row by row: at each
/// pixel, what `magnitude` gives for the brightness around it.
pub open spec fn is_gradient<G, F: Fn(Neighborhood<G>) -> G>(
    magnitude: F,
    gray: Seq<G>,
    w: int,
    h: int,
    y0: int,
    y1: int,
    out: Seq<G>,
) -> bool {
    &&& out.len() == (y1 - y0) * w
    &&& forall|k: int|
        0 <= k < out.len() ==> call_ensures(
            magnitude,
            (around(gray, w, h, k % w, y0 + k / w),),
            #[trigger] out[k],
        )
}

/// The gradient of the rows from `y0` up to but not at `y1` of a `w` by `h` image.
pub fn gradient_band<G: Copy, F: Fn(Neighborhood<G>) -> G>(
    gray: &Vec<G>,
    w: u32,
    h: u32,
    y0: u32,
    y1: u32,
    magnitude: F,
) -> (r: Vec<G>)
    requires
        w > 0,
        gray@.len() == w * h,
        y0 <= y1 <= h,
        forall|n: Neighborhood<G>| call_requires(magnitude, (n,)),
    ensures
        is_gradient(magnitude, gray@, w as int, h as int, y0 as int, y1 as int, r@),
{
    let mut out: Vec<G> = Vec::new();
    let rows: u32 = y1 - y0;
    assert(0 <= rows * w <= w * h) by (nonlinear_arith)
        requires
            0 <= rows <= h,
            0 < w,
    ;
    assert(gray.len() <= usize::MAX);
    let width: usize = w as usize;
    let count: usize = rows as usize * width;
    let mut k: usize = 0;
    while k < count
        invariant
            w > 0,
            width == w,
            gray@.len() == w * h,
            w * h <= usize::MAX,
            rows == y1 - y0,
            y0 <= y1 <= h,
            count == rows * w,
            k <= count,
            out@.len() == k,
            forall|n: Neighborhood<G>| call_requires(magnitude, (n,)),
            forall|j: int|
                0 <= j < k ==> call_ensures(
                    magnitude,
                    (around(gray@, w as int, h as int, j % w as int, y0 + j / w as int),),
                    #[trigger] out@[j],
                ),
        decreases count - k,
    {
        proof {
            assert(k < w * rows) by (nonlinear_arith)
                requires
                    k < rows * w,
            ;
            lemma_multiply_divide_lt(k as int, w as int, rows as int);
            lemma_fundamental_div_mod(k as int, w as int);
        }
        let x: i64 = (k % width) as i64;
        let y: i64 = y0 as i64 + (k / width) as i64;
        let around_here = Neighborhood {
            north_west: gray[clamped_idx(x - 1, y - 1, w, h)],
            north: gray[clamped_idx(x, y - 1, w, h)],
            north_east: gray[clamped_idx(x + 1, y - 1, w, h)],
            west: gray[clamped_idx(x - 1, y, w, h)],
            east: gray[clamped_idx(x + 1, y, w, h)],
            south_west: gray[clamped_idx(x - 1, y + 1, w, h)],
            south: gray[clamped_idx(x, y + 1, w, h)],
            south_east: gray[clamped_idx(x + 1, y + 1, w, h)],
        };
        let value = magnitude(around_here);
        out.push(value);
        k = k + 1;
    }
    out
}

/// How many rows each worker gets: the rows shared out evenly, rounded up, among one worker
/// per core, but no more workers than rows.
pub open spec fn rows_per_band(h: int, cores: int) -> int {
    let workers = if cores < 1 {
        1
    } else if cores > h {
        h
    } else {
        cores
    };
    (h + workers - 1) / workers
}

/// The bands follow one another from the first row of an image of height `h` to the last, and
/// none is empty.
pub open spec fn bands_tile(bands: Seq<(u32, u32)>, h: int) -> bool {
    &&& bands.len() > 0
    &&& bands[0].0 == 0
    &&& bands.last().1 == h
    &&& forall|i: int| 0 <= i < bands.len() ==> (#[trigger] bands[i]).0 < bands[i].1
    &&& forall|i: int| 1 <= i < bands.len() ==> (#[trigger] bands[i]).0 == bands[i - 1].1
}

/// The rows of an image of height `h` cut into bands, one for each worker, as (first row, row
/// after the last).
pub fn gradient_bands(h: u32, cores: usize) -> (r: Vec<(u32, u32)>)
    requires
        h > 0,
    ensures
        bands_tile(r@, h as int),
        forall|i: int|
            0 <= i < r@.len() - 1 ==> (#[trigger] r@[i]).1 - r@[i].0 == rows_per_band(
                h as int,
                cores as int,
            ),
        r@.last().1 - r@.last().0 <= rows_per_band(h as int, cores as int),
        r@.len() <= if cores < 1 {
            1
        } else {
            cores as int
        },
{
    let workers: u32 = if cores < 1 {
        1
    } else if cores > h as usize {
        h
    } else {
        cores as u32
    };
    let rows: u32 = ((h as u64 + workers as u64 - 1) / workers as u64) as u32;
    proof {
        let (hi, wi) = (h as int, workers as int);
        assert(0 < (hi + wi - 1) / wi <= hi && ((hi + wi - 1) / wi) * wi >= hi)
            by (nonlinear_arith)
            requires
                0 < wi <= hi,
        ;
        assert(rows == rows_per_band(h as int, cores as int));
    }
    let mut out: Vec<(u32, u32)> = Vec::new();
    let mut y: u32 = 0;
    assert(0 * rows == 0) by (nonlinear_arith);
    while h - y > rows
        invariant
            0 < rows <= h,
            rows == rows_per_band(h as int, cores as int),
            y < h,
            y == out@.len() * rows,
            out@.len() == 0 ==> y == 0,
            out@.len() > 0 ==> out@[0].0 == 0 && out@.last().1 == y,
            forall|i: int| 0 <= i < out@.len() ==> (#[trigger] out@[i]).1 - out@[i].0 == rows,
            forall|i: int| 1 <= i < out@.len() ==> (#[trigger] out@[i]).0 == out@[i - 1].1,
        decreases h - y,
    {
        let ghost before = out@.len();
        out.push((y, y + rows));
        y = y + rows;
        assert(y == (before + 1) * rows) by (nonlinear_arith)
            requires
                y == before * rows + rows,
        ;
    }
    assert(out@.len() + 1 <= workers) by (nonlinear_arith)
        requires
            out@.len() * rows < h,
            rows * workers >= h,
            0 < rows,
    ;
    out.push((y, h));
    out
}

/// The first `n` of the parts, one after the other.
pub open spec fn joined<G>(parts: Seq<Vec<G>>, n: int) -> Seq<G>
    decreases n,
{
    if n <= 0 {
        seq![]
    } else {
        joined(parts, n - 1) + parts[n - 1]@
    }
}

/// Joins what was computed band by band.
pub fn join_bands<G: Copy>(parts: &Vec<Vec<G>>) -> (r: Vec<G>)
    ensures
        r@ == joined(parts@, parts@.len() as int),
{
    let mut out: Vec<G> = Vec::new();
    let mut i: usize = 0;
    while i < parts.len()
        invariant
            i <= parts@.len(),
            out@ == joined(parts@, i as int),
        decreases parts@.len() - i,
    {
        let mut k: usize = 0;
        while k < parts[i].len()
            invariant
                i < parts@.len(),
                k <= parts@[i as int]@.len(),
                out@ == joined(parts@, i as int) + parts@[i as int]@.take(k as int),
            decreases parts@[i as int]@.len() - k,
        {
            out.push(parts[i][k]);
            k = k + 1;
            assert(parts@[i as int]@.take(k as int) =~= parts@[i as int]@.take(k - 1).push(
                parts@[i as int]@[k - 1],
            ));
        }
        assert(parts@[i as int]@.take(k as int) =~= parts@[i as int]@);
        i = i + 1;
    }
    out
}

/// The gradient of a whole image by one worker, with the image's width and height.
pub fn compute_gradient<G: Copy, B: Fn(Rgb) -> G, F: Fn(Neighborhood<G>) -> G>(
    img: &Screenshot,
    brightness: B,
    magnitude: F,
) -> (r: (Vec<G>, u32, u32))
    requires
        img.inv(),
        img.width > 0,
        forall|c: Rgb| call_requires(brightness, (c,)),
        forall|n: Neighborhood<G>| call_requires(magnitude, (n,)),
    ensures
        r.1 == img.width,
        r.2 == img.height,
        exists|gray: Seq<G>|
            is_luminance(brightness, *img, gray) && #[trigger] is_gradient(
                magnitude,
                gray,
                img.width as int,
                img.height as int,
                0,
                img.height as int,
                r.0@,
            ),
{
    let gray = luminance(img, brightness);
    let grad = gradient_band(&gray, img.width, img.height, 0, img.height, magnitude);
    let r = (grad, img.width, img.height);
    proof {
        let seen = gray@;
        assert(is_luminance(brightness, *img, seen) && is_gradient(
            magnitude,
            seen,
            img.width as int,
            img.height as int,
            0,
            img.height as int,
            r.0@,
        ));
    }
    r
}

// Laws

/// The value at `x`, `y` of a whole gradient is what `magnitude` gives for the brightness
/// around `x`, `y`.
pub proof fn law_gradient_at_pixel<G, F: Fn(Neighborhood<G>) -> G>(
    magnitude: F,
    gray: Seq<G>,
    w: int,
    h: int,
    out: Seq<G>,
    x: int,
    y: int,
)
    requires
        is_gradient(magnitude, gray, w, h, 0, h, out),
        0 <= x < w,
        0 <= y < h,
    ensures
        0 <= y * w + x < out.len(),
        call_ensures(magnitude, (around(gray, w, h, x, y),), out[y * w + x]),
{
    assert(0 <= y * w + x < h * w) by (nonlinear_arith)
        requires
            0 <= x < w,
            0 <= y < h,
    ;
    lemma_fundamental_div_mod_converse(y * w + x, w, y, x);
    let value = out[y * w + x];
}

/// The gradients of two bands that meet, one after the other, are the gradient of the rows of
/// both. So the bands can be computed apart and joined in order.
pub proof fn law_bands_join<G, F: Fn(Neighborhood<G>) -> G>(
    magnitude: F,
    gray: Seq<G>,
    w: int,
    h: int,
    y0: int,
    y1: int,
    y2: int,
    upper: Seq<G>,
    lower: Seq<G>,
)
    requires
        w > 0,
        0 <= y0 <= y1 <= y2 <= h,
        is_gradient(magnitude, gray, w, h, y0, y1, upper),
        is_gradient(magnitude, gray, w, h, y1, y2, lower),
    ensures
        is_gradient(magnitude, gray, w, h, y0, y2, upper + lower),
{
    let both = upper + lower;
    let rows = y1 - y0;
    assert((y1 - y0) * w + (y2 - y1) * w == (y2 - y0) * w) by (nonlinear_arith);
    assert forall|k: int| 0 <= k < both.len() implies call_ensures(
        magnitude,
        (around(gray, w, h, k % w, y0 + k / w),),
        #[trigger] both[k],
    ) by {
        if k < upper.len() {
            assert(both[k] == upper[k]);
        } else {
            let j = k - upper.len();
            assert(both[k] == lower[j]);
            lemma_fundamental_div_mod(j, w);
            assert(k == (rows + j / w) * w + j % w) by (nonlinear_arith)
                requires
                    k == rows * w + j,
                    j == w * (j / w) + j % w,
            ;
            lemma_mod_pos_bound(j, w);
            lemma_fundamental_div_mod_converse(k, w, rows + j / w, j % w);
        }
    }
}

/// `parts` holds the gradient of each of the bands.
pub open spec fn band_gradients<G, F: Fn(Neighborhood<G>) -> G>(
    magnitude: F,
    gray: Seq<G>,
    w: int,
    h: int,
    bands: Seq<(u32, u32)>,
    parts: Seq<Vec<G>>,
) -> bool {
    &&& parts.len() == bands.len()
    &&& forall|i: int|
        0 <= i < bands.len() ==> is_gradient(
            magnitude,
            gray,
            w,
            h,
            (#[trigger] bands[i]).0 as int,
            bands[i].1 as int,
            parts[i]@,
        )
}

/// The gradients of the bands of an image, joined in order, are the gradient of the whole image,
/// however it is cut into bands.
pub proof fn law_all_bands_join<G, F: Fn(Neighborhood<G>) -> G>(
    magnitude: F,
    gray: Seq<G>,
    w: int,
    h: int,
    bands: Seq<(u32, u32)>,
    parts: Seq<Vec<G>>,
)
    requires
        w > 0,
        bands_tile(bands, h),
        band_gradients(magnitude, gray, w, h, bands, parts),
    ensures
        is_gradient(magnitude, gray, w, h, 0, h, joined(parts, parts.len() as int)),
{
    lemma_bands_join_up_to(magnitude, gray, w, h, bands, parts, bands.len() as int);
}

proof fn lemma_bands_join_up_to<G, F: Fn(Neighborhood<G>) -> G>(
    magnitude: F,
    gray: Seq<G>,
    w: int,
    h: int,
    bands: Seq<(u32, u32)>,
    parts: Seq<Vec<G>>,
    n: int,
)
    requires
        w > 0,
        bands_tile(bands, h),
        band_gradients(magnitude, gray, w, h, bands, parts),
        1 <= n <= bands.len(),
    ensures
        bands[n - 1].1 <= h,
        is_gradient(magnitude, gray, w, h, 0, bands[n - 1].1 as int, joined(parts, n)),
    decreases n,
{
    lemma_bands_end_inside(bands, h, n);
    let part = parts[n - 1]@;
    assert(is_gradient(
        magnitude,
        gray,
        w,
        h,
        bands[n - 1].0 as int,
        bands[n - 1].1 as int,
        part,
    ));
    if n == 1 {
        assert(joined(parts, 0) =~= seq![]);
        assert(joined(parts, 1) =~= part);
    } else {
        lemma_bands_join_up_to(magnitude, gray, w, h, bands, parts, n - 1);
        law_bands_join(
            magnitude,
            gray,
            w,
            h,
            0,
            bands[n - 1].0 as int,
            bands[n - 1].1 as int,
            joined(parts, n - 1),
            part,
        );
    }
}

proof fn lemma_bands_end_inside(bands: Seq<(u32, u32)>, h: int, n: int)
    requires
        bands_tile(bands, h),
        1 <= n <= bands.len(),
    ensures
        bands[n - 1].1 <= h,
    decreases bands.len() - n,
{
    if n < bands.len() {
        lemma_bands_end_inside(bands, h, n + 1);
        assert(bands[n].0 == bands[n - 1].1 && bands[n].0 < bands[n].1);
    }
}

/// The number of workers never shows: where `magnitude` always gives the same for the same, any
/// two ways to cut the image into bands give the same gradient.
pub proof fn law_workers_do_not_show<G, F: Fn(Neighborhood<G>) -> G>(
    magnitude: F,
    gray: Seq<G>,
    w: int,
    h: int,
    bands: Seq<(u32, u32)>,
    parts: Seq<Vec<G>>,
    other_bands: Seq<(u32, u32)>,
    other_parts: Seq<Vec<G>>,
)
    requires
        w > 0,
        forall|n: Neighborhood<G>, a: G, b: G| #[trigger]
            call_ensures(magnitude, (n,), a) && #[trigger] call_ensures(magnitude, (n,), b) ==> a
                == b,
        bands_tile(bands, h),
        band_gradients(magnitude, gray, w, h, bands, parts),
        bands_tile(other_bands, h),
        band_gradients(magnitude, gray, w, h, other_bands, other_parts),
    ensures
        joined(parts, parts.len() as int) == joined(other_parts, other_parts.len() as int),
{
    law_all_bands_join(magnitude, gray, w, h, bands, parts);
    law_all_bands_join(magnitude, gray, w, h, other_bands, other_parts);
    let a = joined(parts, parts.len() as int);
    let b = joined(other_parts, other_parts.len() as int);
    assert forall|k: int| 0 <= k < a.len() implies a[k] == b[k] by {
        assert(call_ensures(magnitude, (around(gray, w, h, k % w, 0 + k / w),), a[k]));
        assert(call_ensures(magnitude, (around(gray, w, h, k % w, 0 + k / w),), b[k]));
    }
    assert(a =~= b);
}

// The magnet

/// The offset of the `k`th cell of the square window of a radius, row by row.
pub open spec fn window_offset(radius: int, k: int) -> (int, int) {
    (k % (2 * radius + 1) - radius, k / (2 * radius + 1) - radius)
}

/// How many cells the window has.
pub open spec fn window_size(radius: int) -> int {
    if radius < 0 {
        0
    } else {
        (2 * radius + 1) * (2 * radius + 1)
    }
}

/// `ranks` holds what `score` gives for every cell of the window around `cx`, `cy` whose
/// gradient is at least `threshold`, from that gradient and the square of the distance. Weaker
/// cells and cells outside the image have no rank.
pub open spec fn ranked<F: Fn(i32, i32) -> i64>(
    score: F,
    grad: Seq<i32>,
    w: int,
    h: int,
    cx: int,
    cy: int,
    radius: int,
    threshold: int,
    ranks: Seq<Option<i64>>,
) -> bool {
    &&& ranks.len() == window_size(radius)
    &&& forall|k: int|
        0 <= k < ranks.len() ==> cell_ranked(
            score,
            grad,
            w,
            h,
            cx,
            cy,
            threshold,
            window_offset(radius, k),
            #[trigger] ranks[k],
        )
}

/// `rank` is the rank of the cell at this offset from `cx`, `cy`.
pub open spec fn cell_ranked<F: Fn(i32, i32) -> i64>(
    score: F,
    grad: Seq<i32>,
    w: int,
    h: int,
    cx: int,
    cy: int,
    threshold: int,
    offset: (int, int),
    rank: Option<i64>,
) -> bool {
    let (dx, dy) = offset;
    let g = grad[(cy + dy) * w + (cx + dx)];
    if 0 <= cx + dx < w && 0 <= cy + dy < h && g >= threshold {
        rank is Some && call_ensures(score, (g, (dx * dx + dy * dy) as i32), rank->0)
    } else {
        rank is None
    }
}

/// `k` is the first of the highest ranks.
pub open spec fn is_first_best(ranks: Seq<Option<i64>>, k: int) -> bool {
    &&& 0 <= k < ranks.len()
    &&& ranks[k] is Some
    &&& forall|j: int|
        0 <= j < ranks.len() && (#[trigger] ranks[j]) is Some ==> if j < k {
            ranks[j]->0 < ranks[k]->0
        } else {
            ranks[j]->0 <= ranks[k]->0
        }
}

/// What the magnet picks, given the rank of every cell: the first of the highest, or nothing
/// where no cell has a rank.
pub open spec fn magnet_picks(
    ranks: Seq<Option<i64>>,
    cx: int,
    cy: int,
    radius: int,
    picked: Option<(i64, i64)>,
) -> bool {
    match picked {
        None => forall|k: int| 0 <= k < ranks.len() ==> (#[trigger] ranks[k]) is None,
        Some((x, y)) => exists|k: int| #[trigger]
            is_first_best(ranks, k) && x == cx + window_offset(radius, k).0 && y == cy
                + window_offset(radius, k).1,
    }
}

/// The pixel within `radius` of `cx`, `cy` on each axis that ranks highest, `None` where no
/// gradient reaches `threshold`. `score` ranks a pixel by its gradient and the square of its
/// distance. Gradients and scores are only compared, so any numbering that keeps their order
/// will do.
pub fn snap_point<F: Fn(i32, i32) -> i64>(
    grad: &Vec<i32>,
    w: u32,
    h: u32,
    cx: i32,
    cy: i32,
    radius: i32,
    threshold: i32,
    score: F,
) -> (r: Option<(i64, i64)>)
    requires
        grad@.len() == w * h,
        radius <= 0x7fff,
        forall|g: i32, d: i32| call_requires(score, (g, d)),
    ensures
        exists|ranks: Seq<Option<i64>>|
            ranked(
                score,
                grad@,
                w as int,
                h as int,
                cx as int,
                cy as int,
                radius as int,
                threshold as int,
                ranks,
            ) && #[trigger] magnet_picks(ranks, cx as int, cy as int, radius as int, r),
{
    let ghost mut ranks: Seq<Option<i64>> = seq![];
    if radius < 0 {
        assert(magnet_picks(ranks, cx as int, cy as int, radius as int, None));
        return None;
    }
    let reach: i64 = radius as i64;
    let side: i64 = 2 * reach + 1;
    assert(0 < side * side <= 0xffff * 0xffff) by (nonlinear_arith)
        requires
            1 <= side <= 0xffff,
    ;
    let cells: i64 = side * side;
    let mut best: Option<(i64, i64, i64)> = None;
    let ghost mut best_at: int = 0;
    let mut k: i64 = 0;
    while k < cells
        invariant
            grad@.len() == w * h,
            0 <= reach == radius <= 0x7fff,
            side == 2 * reach + 1,
            cells == side * side == window_size(radius as int),
            cells <= 0xffff * 0xffff,
            0 <= k <= cells,
            forall|g: i32, d: i32| call_requires(score, (g, d)),
            ranks.len() == k,
            forall|j: int|
                0 <= j < k ==> cell_ranked(
                    score,
                    grad@,
                    w as int,
                    h as int,
                    cx as int,
                    cy as int,
                    threshold as int,
                    window_offset(radius as int, j),
                    #[trigger] ranks[j],
                ),
            best is None ==> forall|j: int| 0 <= j < k ==> (#[trigger] ranks[j]) is None,
            best matches Some((bx, by, rank)) ==> {
                &&& is_first_best(ranks, best_at)
                &&& ranks[best_at] == Some(rank)
                &&& bx == cx + window_offset(radius as int, best_at).0
                &&& by == cy + window_offset(radius as int, best_at).1
            },
        decreases cells - k,
    {
        proof {
            lemma_multiply_divide_lt(k as int, side as int, side as int);
            lemma_fundamental_div_mod(k as int, side as int);
        }
        let dx: i64 = k % side - reach;
        let dy: i64 = k / side - reach;
        let x: i64 = cx as i64 + dx;
        let y: i64 = cy as i64 + dy;
        let mut rank: Option<i64> = None;
        if 0 <= x && x < w as i64 && 0 <= y && y < h as i64 {
            assert(0 <= y * w && y * w + x < w * h) by (nonlinear_arith)
                requires
                    0 <= x < w,
                    0 <= y < h,
            ;
            assert(0 <= dx * dx <= 0x7fff * 0x7fff) by (nonlinear_arith)
                requires
                    -0x7fff <= dx <= 0x7fff,
            ;
            assert(0 <= dy * dy <= 0x7fff * 0x7fff) by (nonlinear_arith)
                requires
                    -0x7fff <= dy <= 0x7fff,
            ;
            assert(grad.len() <= usize::MAX);
            let g: i32 = grad[y as usize * w as usize + x as usize];
            if g >= threshold {
                let dist2: i32 = (dx * dx + dy * dy) as i32;
                rank = Some(score(g, dist2));
            }
        }
        let ghost earlier = ranks;
        proof {
            ranks = ranks.push(rank);
            assert(forall|j: int| 0 <= j < k ==> ranks[j] == #[trigger] earlier[j]);
        }
        if let Some(new) = rank {
            let better: bool = match best {
                None => true,
                Some((_, _, old_rank)) => new > old_rank,
            };
            if better {
                best = Some((x, y, new));
                proof {
                    best_at = k as int;
                }
            }
        }
        k = k + 1;
    }
    let r: Option<(i64, i64)> = match best {
        Some((x, y, _)) => Some((x, y)),
        None => None,
    };
    proof {
        assert(ranked(
            score,
            grad@,
            w as int,
            h as int,
            cx as int,
            cy as int,
            radius as int,
            threshold as int,
            ranks,
        ));
        assert(magnet_picks(ranks, cx as int, cy as int, radius as int, r));
    }
    r
}

/// The magnet picks a pixel of the image with a strong enough gradient, no further away than
/// its radius on either axis, and only one pixel can be the pick.
pub proof fn law_magnet_stays_near<F: Fn(i32, i32) -> i64>(
    score: F,
    grad: Seq<i32>,
    w: int,
    h: int,
    cx: int,
    cy: int,
    radius: int,
    threshold: int,
    ranks: Seq<Option<i64>>,
    picked: Option<(i64, i64)>,
    other: Option<(i64, i64)>,
)
    requires
        ranked(score, grad, w, h, cx, cy, radius, threshold, ranks),
        magnet_picks(ranks, cx, cy, radius, picked),
        magnet_picks(ranks, cx, cy, radius, other),
    ensures
        picked matches Some((x, y)) ==> {
            &&& 0 <= x < w && 0 <= y < h
            &&& cx - radius <= x <= cx + radius
            &&& cy - radius <= y <= cy + radius
            &&& grad[y * w + x] >= threshold
        },
        other == picked,
{
    if let Some((x, y)) = picked {
        let k = choose|k: int| #[trigger]
            is_first_best(ranks, k) && x == cx + window_offset(radius, k).0 && y == cy
                + window_offset(radius, k).1;
        let side = 2 * radius + 1;
        lemma_mod_pos_bound(k, side);
        lemma_multiply_divide_lt(k, side, side);
        lemma_fundamental_div_mod(k, side);
        assert(0 <= k / side) by (nonlinear_arith)
            requires
                0 <= k,
                0 < side,
        ;
        assert(ranks[k] is Some);
        if let Some((x2, y2)) = other {
            let k2 = choose|k2: int| #[trigger]
                is_first_best(ranks, k2) && x2 == cx + window_offset(radius, k2).0 && y2 == cy
                    + window_offset(radius, k2).1;
            assert(ranks[k2] is Some);
            assert(k == k2);
        }
    } else if let Some((x2, y2)) = other {
        let k2 = choose|k2: int| #[trigger]
            is_first_best(ranks, k2) && x2 == cx + window_offset(radius, k2).0 && y2 == cy
                + window_offset(radius, k2).1;
        assert(ranks[k2] is None);
    }
}

} // verus!
