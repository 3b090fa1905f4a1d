//! Laws of the edge gradient and the magnet, stated of single pixels.

use crate::gradient::{
    around, cell_ranked, is_first_best, is_gradient, is_luminance, joined, law_magnet_stays_near,
    magnet_picks, ranked, rows_per_band, window_offset, Neighborhood,
};
use crate::screenshot::{Rgb, Screenshot};
use vstd::arithmetic::div_mod::lemma_fundamental_div_mod_converse;
use vstd::prelude::*;

verus! {

// The gradient

/// The brightness at column `x`, row `y` is that of the pixel there, from its red, green and
/// blue.
pub proof fn law_brightness_of_every_pixel<G, F: Fn(Rgb) -> G>(
    brightness: F,
    img: Screenshot,
    gray: Seq<G>,
    x: int,
    y: int,
)
    requires
        img.inv(),
        is_luminance(brightness, img, gray),
        0 <= x < img.width,
        0 <= y < img.height,
    ensures
        gray.len() == img.width * img.height,
        ({
            let at = y * img.width + x;
            call_ensures(
                brightness,
                ((img.pixels@[4 * at], img.pixels@[4 * at + 1], img.pixels@[4 * at + 2]),),
                gray[at],
            )
        }),
{
    img.lemma_offset(x, y);
    let value = gray[y * img.width + x];
}

/// The neighbors of a pixel are the eight around it. Past the border of the image, the nearest
/// pixel of the image stands in.
pub proof fn law_neighbors_are_adjacent<G>(gray: Seq<G>, w: int, h: int, x: int, y: int)
    requires
        0 <= x < w,
        0 <= y < h,
    ensures
        ({
            let left = if x == 0 {
                x
            } else {
                x - 1
            };
            let right = if x == w - 1 {
                x
            } else {
                x + 1
            };
            let up = if y == 0 {
                y
            } else {
                y - 1
            };
            let down = if y == h - 1 {
                y
            } else {
                y + 1
            };
            let n = around(gray, w, h, x, y);
            &&& n.north_west == gray[up * w + left]
            &&& n.north == gray[up * w + x]
            &&& n.north_east == gray[up * w + right]
            &&& n.west == gray[y * w + left]
            &&& n.east == gray[y * w + right]
            &&& n.south_west == gray[down * w + left]
            &&& n.south == gray[down * w + x]
            &&& n.south_east == gray[down * w + right]
        }),
{
}

/// The rows are shared out among as many workers as there are cores, at least one and at most
/// one for each row: a band is large enough that they all get done, and no larger.
pub proof fn law_bands_share_the_rows(h: int, cores: int, workers: int)
    requires
        h > 0,
        1 <= workers <= h,
        cores < 1 ==> workers == 1,
        cores >= 1 ==> workers <= cores,
        cores >= 1 ==> workers == cores || workers == h,
    ensures
        rows_per_band(h, cores) * workers >= h,
        (rows_per_band(h, cores) - 1) * workers < h,
{
    let r = rows_per_band(h, cores);
    assert(r == (h + workers - 1) / workers);
    assert(((h + workers - 1) / workers) * workers >= h && ((h + workers - 1) / workers - 1)
        * workers < h) by (nonlinear_arith)
        requires
            0 < workers,
            0 < h,
    ;
}

// The magnet

/// The square of the distance between two pixels, as the crow flies.
pub open spec fn squared_distance(x: int, y: int, u: int, v: int) -> int {
    (x - u) * (x - u) + (y - v) * (y - v)
}

/// Whether the magnet can see the pixel at `u`, `v` from `cx`, `cy`: it is in the image, no
/// further away than the radius on either axis, and strong enough.
pub open spec fn in_reach(
    grad: Seq<i32>,
    w: int,
    h: int,
    cx: int,
    cy: int,
    radius: int,
    threshold: int,
    u: int,
    v: int,
) -> bool {
    &&& 0 <= u < w && 0 <= v < h
    &&& cx - radius <= u <= cx + radius
    &&& cy - radius <= v <= cy + radius
    &&& grad[v * w + u] >= threshold
}

/// `s` is a score of the pixel at `u`, `v`: what `score` gives for its gradient and the square of
/// its distance from `cx`, `cy`.
pub open spec fn is_score<F: Fn(i32, i32) -> i64>(
    score: F,
    grad: Seq<i32>,
    w: int,
    cx: int,
    cy: int,
    u: int,
    v: int,
    s: i64,
) -> bool {
    call_ensures(score, (grad[v * w + u], squared_distance(u, v, cx, cy) as i32), s)
}

proof fn lemma_cell<F: Fn(i32, i32) -> i64>(
    score: F,
    grad: Seq<i32>,
    w: int,
    h: int,
    cx: int,
    cy: int,
    radius: int,
    threshold: int,
    ranks: Seq<Option<i64>>,
    u: int,
    v: int,
) -> (k: int)
    requires
        ranked(score, grad, w, h, cx, cy, radius, threshold, ranks),
        in_reach(grad, w, h, cx, cy, radius, threshold, u, v),
    ensures
        k == (v - cy + radius) * (2 * radius + 1) + (u - cx + radius),
        0 <= k < ranks.len(),
        window_offset(radius, k) == (u - cx, v - cy),
        ranks[k] is Some,
        is_score(score, grad, w, cx, cy, u, v, ranks[k]->0),
{
    let side = 2 * radius + 1;
    let (i, j) = (u - cx + radius, v - cy + radius);
    let k = j * side + i;
    assert(0 <= k < side * side) by (nonlinear_arith)
        requires
            k == j * side + i,
            0 <= i < side,
            0 <= j < side,
    ;
    lemma_fundamental_div_mod_converse(k, side, j, i);
    assert(cell_ranked(
        score,
        grad,
        w,
        h,
        cx,
        cy,
        threshold,
        window_offset(radius, k),
        ranks[k],
    ));
    k
}

/// The magnet picks the best edge: wherever a pixel at `u`, `v` is strong enough and near enough,
/// something is picked, and it scores at least as high. Of equal scores the first counts, row by
/// row from the top left.
pub proof fn law_magnet_picks_the_best_edge<F: Fn(i32, i32) -> i64>(
    score: F,
    grad: Seq<i32>,
    w: int,
    h: int,
    cx: int,
    cy: int,
    radius: int,
    threshold: int,
    ranks: Seq<Option<i64>>,
    picked: Option<(i64, i64)>,
    u: int,
    v: int,
)
    requires
        ranked(score, grad, w, h, cx, cy, radius, threshold, ranks),
        magnet_picks(ranks, cx, cy, radius, picked),
        in_reach(grad, w, h, cx, cy, radius, threshold, u, v),
    ensures
        picked matches Some((x, y)) && in_reach(
            grad,
            w,
            h,
            cx,
            cy,
            radius,
            threshold,
            x as int,
            y as int,
        ) && exists|best: i64, other: i64|
            {
                &&& #[trigger] is_score(score, grad, w, cx, cy, x as int, y as int, best)
                &&& #[trigger] is_score(score, grad, w, cx, cy, u, v, other)
                &&& best >= other
                &&& v < y || (v == y && u < x) ==> best > other
            },
{
    let k = lemma_cell(score, grad, w, h, cx, cy, radius, threshold, ranks, u, v);
    law_magnet_stays_near(
        score,
        grad,
        w,
        h,
        cx,
        cy,
        radius,
        threshold,
        ranks,
        picked,
        picked,
    );
    assert(ranks[k] is Some);
    let (x, y) = picked->0;
    let m = choose|m: int| #[trigger]
        is_first_best(ranks, m) && x == cx + window_offset(radius, m).0 && y == cy
            + window_offset(radius, m).1;
    let j = lemma_cell(
        score,
        grad,
        w,
        h,
        cx,
        cy,
        radius,
        threshold,
        ranks,
        x as int,
        y as int,
    );
    vstd::arithmetic::div_mod::lemma_fundamental_div_mod(m, 2 * radius + 1);
    vstd::arithmetic::div_mod::lemma_fundamental_div_mod(j, 2 * radius + 1);
    assert(m == j);
    if v < y || (v == y && u < x) {
        let side = 2 * radius + 1;
        let (a, b, c, d) = (v - cy + radius, u - cx + radius, y - cy + radius, x - cx + radius);
        assert(a * side + b < c * side + d) by (nonlinear_arith)
            requires
                a < c || (a == c && b < d),
                0 <= b < side,
                0 <= d < side,
        ;
    }
    assert(is_score(score, grad, w, cx, cy, x as int, y as int, ranks[j]->0));
    assert(is_score(score, grad, w, cx, cy, u, v, ranks[k]->0));
}

/// With a score that rises with the gradient and falls with the distance, no pixel is passed over
/// for one that is no stronger and no nearer, and worse in one of the two. So of two equally
/// strong pixels the nearer one wins, counting the distance on both axes.
pub proof fn law_magnet_prefers_the_nearer_edge<F: Fn(i32, i32) -> i64>(
    score: F,
    grad: Seq<i32>,
    w: int,
    h: int,
    cx: int,
    cy: int,
    radius: int,
    threshold: int,
    ranks: Seq<Option<i64>>,
    picked: (i64, i64),
    u: int,
    v: int,
)
    requires
        radius <= 0x7fff,
        forall|g1: i32, d1: i32, s1: i64, g2: i32, d2: i32, s2: i64|
            g1 >= g2 && d1 <= d2 && (g1 > g2 || d1 < d2) && #[trigger] call_ensures(
                score,
                (g1, d1),
                s1,
            ) && #[trigger] call_ensures(score, (g2, d2), s2) ==> s1 > s2,
        ranked(score, grad, w, h, cx, cy, radius, threshold, ranks),
        magnet_picks(ranks, cx, cy, radius, Some(picked)),
        in_reach(grad, w, h, cx, cy, radius, threshold, u, v),
        grad[v * w + u] >= grad[picked.1 * w + picked.0],
    ensures
        squared_distance(picked.0 as int, picked.1 as int, cx, cy) <= squared_distance(
            u,
            v,
            cx,
            cy,
        ),
        grad[v * w + u] > grad[picked.1 * w + picked.0] ==> squared_distance(
            picked.0 as int,
            picked.1 as int,
            cx,
            cy,
        ) < squared_distance(u, v, cx, cy),
{
    law_magnet_picks_the_best_edge(
        score,
        grad,
        w,
        h,
        cx,
        cy,
        radius,
        threshold,
        ranks,
        Some(picked),
        u,
        v,
    );
    let (x, y) = (picked.0 as int, picked.1 as int);
    lemma_distance_fits(x, y, cx, cy, radius);
    lemma_distance_fits(u, v, cx, cy, radius);
    let (best, other) = choose|best: i64, other: i64|
        {
            &&& #[trigger] is_score(score, grad, w, cx, cy, x, y, best)
            &&& #[trigger] is_score(score, grad, w, cx, cy, u, v, other)
            &&& best >= other
            &&& v < y || (v == y && u < x) ==> best > other
        };
    assert(call_ensures(
        score,
        (grad[v * w + u], squared_distance(u, v, cx, cy) as i32),
        other,
    ));
    assert(call_ensures(
        score,
        (grad[y * w + x], squared_distance(x, y, cx, cy) as i32),
        best,
    ));
}

proof fn lemma_distance_fits(x: int, y: int, cx: int, cy: int, radius: int)
    requires
        radius <= 0x7fff,
        cx - radius <= x <= cx + radius,
        cy - radius <= y <= cy + radius,
    ensures
        0 <= squared_distance(x, y, cx, cy) <= i32::MAX,
{
    let (a, b) = (x - cx, y - cy);
    assert(0 <= a * a <= 0x7fff * 0x7fff && 0 <= b * b <= 0x7fff * 0x7fff) by (nonlinear_arith)
        requires
            -0x7fff <= a <= 0x7fff,
            -0x7fff <= b <= 0x7fff,
    ;
}

/// The magnet treats both axes alike: with rows and columns exchanged it picks a pixel of the
/// same score, or again nothing.
pub proof fn law_magnet_treats_axes_alike<F: Fn(i32, i32) -> i64>(
    score: F,
    grad: Seq<i32>,
    turned: Seq<i32>,
    w: int,
    h: int,
    cx: int,
    cy: int,
    radius: int,
    threshold: int,
    ranks: Seq<Option<i64>>,
    turned_ranks: Seq<Option<i64>>,
    picked: Option<(i64, i64)>,
    turned_pick: Option<(i64, i64)>,
)
    requires
        forall|g: i32, d: i32, a: i64, b: i64| #[trigger]
            call_ensures(score, (g, d), a) && #[trigger] call_ensures(score, (g, d), b) ==> a == b,
        forall|x: int, y: int|
            0 <= x < w && 0 <= y < h ==> #[trigger] grad[y * w + x] == #[trigger] turned[x * h + y],
        ranked(score, grad, w, h, cx, cy, radius, threshold, ranks),
        magnet_picks(ranks, cx, cy, radius, picked),
        ranked(score, turned, h, w, cy, cx, radius, threshold, turned_ranks),
        magnet_picks(turned_ranks, cy, cx, radius, turned_pick),
    ensures
        picked is Some <==> turned_pick is Some,
        picked matches Some((x, y)) ==> turned_pick matches Some((v, u)) && exists|s: i64| #[trigger]
            is_score(score, grad, w, cx, cy, x as int, y as int, s) && is_score(
                score,
                turned,
                h,
                cy,
                cx,
                v as int,
                u as int,
                s,
            ),
{
    if let Some((x, y)) = picked {
        law_magnet_stays_near(
            score,
            grad,
            w,
            h,
            cx,
            cy,
            radius,
            threshold,
            ranks,
            picked,
            picked,
        );
        assert(grad[y * w + x] == turned[x * h + y]);
        law_magnet_picks_the_best_edge(
            score,
            turned,
            h,
            w,
            cy,
            cx,
            radius,
            threshold,
            turned_ranks,
            turned_pick,
            y as int,
            x as int,
        );
    }
    if let Some((v, u)) = turned_pick {
        law_magnet_stays_near(
            score,
            turned,
            h,
            w,
            cy,
            cx,
            radius,
            threshold,
            turned_ranks,
            turned_pick,
            turned_pick,
        );
        assert(grad[v * w + u] == turned[u * h + v]);
        law_magnet_picks_the_best_edge(
            score,
            grad,
            w,
            h,
            cx,
            cy,
            radius,
            threshold,
            ranks,
            picked,
            u as int,
            v as int,
        );
    }
    if picked is Some && turned_pick is Some {
        let (p, q) = (picked->0, turned_pick->0);
        let (x, y) = (p.0 as int, p.1 as int);
        let (tx, ty) = (q.0 as int, q.1 as int);
        let (a, b) = choose|best: i64, other: i64|
            {
                &&& #[trigger] is_score(score, grad, w, cx, cy, x, y, best)
                &&& #[trigger] is_score(score, grad, w, cx, cy, ty, tx, other)
                &&& best >= other
                &&& tx < y || (tx == y && ty < x) ==> best > other
            };
        let (c, d) = choose|best: i64, other: i64|
            {
                &&& #[trigger] is_score(score, turned, h, cy, cx, tx, ty, best)
                &&& #[trigger] is_score(score, turned, h, cy, cx, y, x, other)
                &&& best >= other
                &&& x < ty || (x == ty && y < tx) ==> best > other
            };
        assert(grad[y * w + x] == turned[x * h + y]);
        assert(grad[tx * w + ty] == turned[ty * h + tx]);
        assert(squared_distance(x, y, cx, cy) == squared_distance(y, x, cy, cx));
        assert(squared_distance(ty, tx, cx, cy) == squared_distance(tx, ty, cy, cx));
        assert(a == d);
        assert(b == c);
        assert(is_score(score, grad, w, cx, cy, x, y, a) && is_score(
            score,
            turned,
            h,
            cy,
            cx,
            tx,
            ty,
            a,
        ));
    }
}

/// Every band holds a value for each of its pixels, at its place counted from the band's first row:
/// what `magnitude` gives for the eight values around that pixel of the whole image.
pub proof fn law_band_at_pixel<G, F: Fn(Neighborhood<G>) -> G>(
    magnitude: F,
    gray: Seq<G>,
    w: int,
    h: int,
    y0: int,
    y1: int,
    out: Seq<G>,
    x: int,
    y: int,
)
    requires
        is_gradient(magnitude, gray, w, h, y0, y1, out),
        0 <= x < w,
        y0 <= y < y1,
    ensures
        out.len() == (y1 - y0) * w,
        0 <= (y - y0) * w + x < out.len(),
        call_ensures(magnitude, (around(gray, w, h, x, y),), out[(y - y0) * w + x]),
{
    let r = y - y0;
    assert(0 <= r * w + x < (y1 - y0) * w) by (nonlinear_arith)
        requires
            0 <= x < w,
            0 <= r < y1 - y0,
    ;
    lemma_fundamental_div_mod_converse(r * w + x, w, r, x);
    let value = out[r * w + x];
}

/// Joining keeps every value of every part, in order: the first part comes first, and each further
/// one follows what is there.
pub proof fn law_joining_keeps_every_value<G>(parts: Seq<Vec<G>>, n: int, k: int)
    requires
        0 <= n < parts.len(),
    ensures
        joined(parts, 0).len() == 0,
        joined(parts, n + 1).len() == joined(parts, n).len() + parts[n]@.len(),
        0 <= k < joined(parts, n).len() ==> joined(parts, n + 1)[k] == joined(parts, n)[k],
        0 <= k < parts[n]@.len() ==> joined(parts, n + 1)[joined(parts, n).len() + k]
            == parts[n]@[k],
{
}

} // verus!
