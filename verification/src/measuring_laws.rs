//! Laws of measuring and shrinking, stated of the pixels themselves.

use crate::extent::{
    channel_close, close_at, continues, reaches, unguarded, Direction, MAX_EXTENT_SCAN,
};
use crate::screenshot::{Rgb, Screenshot};
use crate::shrink::{
    all_close, are_edge_modes, clamped_frame, color_count, frame_of, has_color, is_mode,
    is_mode_between, is_snapped, on_line, shrink_of, EdgeColors, Frame, Shrink,
};
use vstd::prelude::*;
use vstd::set_lib::set_int_range;

verus! {

// Pixels

/// How far apart two channel values are.
pub open spec fn apart(a: u8, b: u8) -> int {
    if a >= b {
        a - b
    } else {
        b - a
    }
}

/// The byte of channel `k` of the pixel at column `x`, row `y`.
pub open spec fn byte_at(img: Screenshot, x: int, y: int, k: int) -> u8 {
    img.pixels@[4 * (y * img.width + x) + k]
}

/// Whether the image has a pixel at `x`, `y` and none of its red, green and blue is more than
/// `tol` away from that of `c`, whether lighter or darker.
pub open spec fn alike(img: Screenshot, x: int, y: int, c: Rgb, tol: u8) -> bool {
    &&& 0 <= x < img.width
    &&& 0 <= y < img.height
    &&& apart(byte_at(img, x, y, 0), c.0) <= tol
    &&& apart(byte_at(img, x, y, 1), c.1) <= tol
    &&& apart(byte_at(img, x, y, 2), c.2) <= tol
}

/// A pixel is read from its own four bytes: rows follow one another from the top, and the
/// channels of a pixel are red, green, blue and alpha.
pub proof fn law_pixels_are_read_in_place(img: Screenshot, x: int, y: int)
    ensures
        img.inv() <==> img.pixels@.len() == 4 * (img.width * img.height),
        img.covers(x, y) <==> 0 <= x < img.width && 0 <= y < img.height,
        img.rgba(x, y) == (
            byte_at(img, x, y, 0),
            byte_at(img, x, y, 1),
            byte_at(img, x, y, 2),
            byte_at(img, x, y, 3),
        ),
        img.rgb(x, y) == (img.rgba(x, y).0, img.rgba(x, y).1, img.rgba(x, y).2),
{
}

/// Two colors are close if and only if no channel differs by more than the tolerance. So being
/// close goes both ways, and a channel that is further off rules it out, lighter or darker.
pub proof fn law_close_means_every_channel_is(
    img: Screenshot,
    x: int,
    y: int,
    u: int,
    v: int,
    c: Rgb,
    tol: u8,
)
    ensures
        close_at(img, x, y, c, tol) <==> alike(img, x, y, c, tol),
        img.covers(x, y) && img.covers(u, v) ==> (close_at(img, x, y, img.rgb(u, v), tol)
            <==> close_at(img, u, v, img.rgb(x, y), tol)),
        apart(img.rgb(x, y).0, c.0) > tol ==> !close_at(img, x, y, c, tol),
        apart(img.rgb(x, y).1, c.1) > tol ==> !close_at(img, x, y, c, tol),
        apart(img.rgb(x, y).2, c.2) > tol ==> !close_at(img, x, y, c, tol),
        img.covers(x, y) ==> close_at(img, x, y, img.rgb(x, y), tol),
        forall|a: u8, b: u8| #[trigger]
            channel_close(a, b, tol) <==> channel_close(b, a, tol),
{
}

// Measuring

/// Whether the pixel `k` away from `px`, `py` looks like `c`: that many columns to the left or
/// right, or rows up or down.
pub open spec fn alike_ahead(
    img: Screenshot,
    px: int,
    py: int,
    dir: Direction,
    k: int,
    c: Rgb,
    tol: u8,
) -> bool {
    match dir {
        Direction::Left => alike(img, px - k, py, c, tol),
        Direction::Right => alike(img, px + k, py, c, tol),
        Direction::Up => alike(img, px, py - k, c, tol),
        Direction::Down => alike(img, px, py + k, c, tol),
    }
}

/// A measurement runs over pixels that all look like the first, and ends in front of the first
/// that does not: one that is outside the image or has a channel that is too far off, lighter
/// or darker. It ends before that only on a guide across its way, or at the cap.
pub proof fn law_measurement_ends_at_first_other_pixel(
    img: Screenshot,
    px: int,
    py: int,
    tol: u8,
    guides_x: Seq<i64>,
    guides_y: Seq<i64>,
    dir: Direction,
    n: int,
)
    requires
        reaches(img, px, py, tol, guides_x, guides_y, dir, n),
    ensures
        0 <= n <= 2000,
        forall|k: int|
            1 <= k <= n ==> #[trigger] alike_ahead(img, px, py, dir, k, img.rgb(px, py), tol),
        n < 2000 && alike_ahead(img, px, py, dir, n + 1, img.rgb(px, py), tol) ==> match dir {
            Direction::Left => exists|i: int|
                0 <= i < guides_x.len() && #[trigger] guides_x[i] == px - n,
            Direction::Right => exists|i: int|
                0 <= i < guides_x.len() && #[trigger] guides_x[i] == px + n,
            Direction::Up => exists|i: int|
                0 <= i < guides_y.len() && #[trigger] guides_y[i] == py - n,
            Direction::Down => exists|i: int|
                0 <= i < guides_y.len() && #[trigger] guides_y[i] == py + n,
        },
{
    let c = img.rgb(px, py);
    assert forall|k: int| 1 <= k <= n implies #[trigger] alike_ahead(
        img,
        px,
        py,
        dir,
        k,
        c,
        tol,
    ) by {
        assert(continues(img, px, py, tol, guides_x, guides_y, dir, k));
    }
    if n < 2000 && alike_ahead(img, px, py, dir, n + 1, c, tol) {
        assert(!unguarded(px, py, guides_x, guides_y, dir, n + 1));
        if n > 0 {
            assert(continues(img, px, py, tol, guides_x, guides_y, dir, n));
        }
    }
}

// Edge colors

/// The places from `lo` to `hi` on the row `fixed`, or on the column `fixed`, at which the image
/// has a pixel of exactly the color `c`.
pub open spec fn places_of(
    img: Screenshot,
    horizontal: bool,
    fixed: int,
    lo: int,
    hi: int,
    c: Rgb,
) -> Set<int> {
    set_int_range(lo, hi + 1).filter(
        |v: int|
            if horizontal {
                alike(img, v, fixed, c, 0)
            } else {
                alike(img, fixed, v, c, 0)
            },
    )
}

proof fn lemma_count_is_len(
    img: Screenshot,
    horizontal: bool,
    fixed: int,
    lo: int,
    hi: int,
    c: Rgb,
)
    requires
        lo <= hi,
    ensures
        places_of(img, horizontal, fixed, lo, hi - 1, c).finite(),
        places_of(img, horizontal, fixed, lo, hi - 1, c).len() == color_count(
            img,
            horizontal,
            fixed,
            lo,
            hi,
            c,
        ),
    decreases hi - lo,
{
    let all = places_of(img, horizontal, fixed, lo, hi - 1, c);
    if lo == hi {
        assert(all =~= Set::empty());
    } else {
        lemma_count_is_len(img, horizontal, fixed, lo, hi - 1, c);
        let before = places_of(img, horizontal, fixed, lo, hi - 2, c);
        if has_color(img, horizontal, fixed, hi - 1, c) {
            assert(all =~= before.insert(hi - 1));
        } else {
            assert(all =~= before);
        }
    }
}

/// The color of an edge is the majority color of its line: no color has more pixels on it. A
/// line without a pixel counts as white.
pub proof fn law_edge_color_is_most_common(
    img: Screenshot,
    horizontal: bool,
    fixed: int,
    from: int,
    to: int,
    c: Rgb,
    other: Rgb,
)
    requires
        is_mode(img, horizontal, fixed, from, to, c),
    ensures
        ({
            let (lo, hi) = if from <= to {
                (from, to)
            } else {
                (to, from)
            };
            let on = places_of(img, horizontal, fixed, lo, hi, c);
            &&& places_of(img, horizontal, fixed, lo, hi, other).len() <= on.len()
            &&& on.len() == 0 ==> c == (255u8, 255u8, 255u8)
        }),
{
    let (lo, hi) = if from <= to {
        (from, to)
    } else {
        (to, from)
    };
    lemma_count_is_len(img, horizontal, fixed, lo, hi + 1, c);
    lemma_count_is_len(img, horizontal, fixed, lo, hi + 1, other);
    assert(is_mode_between(img, horizontal, fixed, lo, hi + 1, c));
    if forall|v: int|
        lo <= v < hi + 1 ==> !img.covers(
            (#[trigger] on_line(horizontal, fixed, v)).0,
            on_line(horizontal, fixed, v).1,
        ) {
        assert forall|v: int| !places_of(img, horizontal, fixed, lo, hi, other).contains(v) by {
            let p = on_line(horizontal, fixed, v);
        }
        assert(places_of(img, horizontal, fixed, lo, hi, other) =~= Set::empty());
    }
}

/// A whole line matches a color if and only if each of its pixels does, whichever end it is
/// told from.
pub proof fn law_line_matches_pixel_by_pixel(
    img: Screenshot,
    fixed: int,
    from: int,
    to: int,
    c: Rgb,
    tol: u8,
)
    ensures
        all_close(img, true, fixed, from, to, c, tol) <==> forall|x: int|
            from <= x <= to || to <= x <= from ==> #[trigger] alike(img, x, fixed, c, tol),
        all_close(img, false, fixed, from, to, c, tol) <==> forall|y: int|
            from <= y <= to || to <= y <= from ==> #[trigger] alike(img, fixed, y, c, tol),
{
    let (lo, hi) = if from <= to {
        (from, to)
    } else {
        (to, from)
    };
    lemma_line(img, true, fixed, lo, hi, c, tol);
    lemma_line(img, false, fixed, lo, hi, c, tol);
}

// Shrinking

/// Each edge of `g` is next to the center, or in front of a line on which a pixel, somewhere
/// along that edge, does not look like the edge's own color.
pub open spec fn stuck(
    img: Screenshot,
    g: Frame,
    mid_x: int,
    mid_y: int,
    colors: EdgeColors,
    tol: u8,
) -> bool {
    &&& g.left + 1 >= mid_x || exists|y: int|
        g.top <= y <= g.bottom && !#[trigger] alike(img, g.left + 1, y, colors.left, tol)
    &&& g.right - 1 <= mid_x || exists|y: int|
        g.top <= y <= g.bottom && !#[trigger] alike(img, g.right - 1, y, colors.right, tol)
    &&& g.top + 1 >= mid_y || exists|x: int|
        g.left <= x <= g.right && !#[trigger] alike(img, x, g.top + 1, colors.top, tol)
    &&& g.bottom - 1 <= mid_y || exists|x: int|
        g.left <= x <= g.right && !#[trigger] alike(img, x, g.bottom - 1, colors.bottom, tol)
}

/// Everything between a side of `f` and the same side of `g` looks like that edge's color, as
/// far as it lies in `g`.
pub open spec fn background_between(
    img: Screenshot,
    f: Frame,
    g: Frame,
    colors: EdgeColors,
    tol: u8,
) -> bool {
    &&& forall|x: int, y: int|
        f.left < x <= g.left && g.top <= y <= g.bottom ==> #[trigger] alike(
            img,
            x,
            y,
            colors.left,
            tol,
        )
    &&& forall|x: int, y: int|
        g.right <= x < f.right && g.top <= y <= g.bottom ==> #[trigger] alike(
            img,
            x,
            y,
            colors.right,
            tol,
        )
    &&& forall|x: int, y: int|
        g.left <= x <= g.right && f.top < y <= g.top ==> #[trigger] alike(
            img,
            x,
            y,
            colors.top,
            tol,
        )
    &&& forall|x: int, y: int|
        g.left <= x <= g.right && g.bottom <= y < f.bottom ==> #[trigger] alike(
            img,
            x,
            y,
            colors.bottom,
            tol,
        )
}

/// `e` lies in `f`, borders included.
pub open spec fn within(e: Frame, f: Frame) -> bool {
    f.left <= e.left && f.top <= e.top && e.right <= f.right && e.bottom <= f.bottom
}

/// One step of an edge, told by the pixels ahead of it.
proof fn lemma_steps(sh: Shrink, f: Frame)
    requires
        f.left <= f.right,
        f.top <= f.bottom,
    ensures
        sh.left_in(f) == (if f.left + 1 < sh.mid_x && forall|y: int|
            f.top <= y <= f.bottom ==> #[trigger] alike(
                sh.img,
                f.left + 1,
                y,
                sh.colors.left,
                sh.tol,
            ) {
            Frame { left: f.left + 1, ..f }
        } else {
            f
        }),
        sh.right_in(f) == (if f.right - 1 > sh.mid_x && forall|y: int|
            f.top <= y <= f.bottom ==> #[trigger] alike(
                sh.img,
                f.right - 1,
                y,
                sh.colors.right,
                sh.tol,
            ) {
            Frame { right: f.right - 1, ..f }
        } else {
            f
        }),
        sh.top_in(f) == (if f.top + 1 < sh.mid_y && forall|x: int|
            f.left <= x <= f.right ==> #[trigger] alike(
                sh.img,
                x,
                f.top + 1,
                sh.colors.top,
                sh.tol,
            ) {
            Frame { top: f.top + 1, ..f }
        } else {
            f
        }),
        sh.bottom_in(f) == (if f.bottom - 1 > sh.mid_y && forall|x: int|
            f.left <= x <= f.right ==> #[trigger] alike(
                sh.img,
                x,
                f.bottom - 1,
                sh.colors.bottom,
                sh.tol,
            ) {
            Frame { bottom: f.bottom - 1, ..f }
        } else {
            f
        }),
{
    lemma_line(sh.img, false, f.left + 1, f.top, f.bottom, sh.colors.left, sh.tol);
    lemma_line(sh.img, false, f.right - 1, f.top, f.bottom, sh.colors.right, sh.tol);
    lemma_line(sh.img, true, f.top + 1, f.left, f.right, sh.colors.top, sh.tol);
    lemma_line(sh.img, true, f.bottom - 1, f.left, f.right, sh.colors.bottom, sh.tol);
}

proof fn lemma_line(
    img: Screenshot,
    horizontal: bool,
    fixed: int,
    from: int,
    to: int,
    c: Rgb,
    tol: u8,
)
    requires
        from <= to,
    ensures
        horizontal ==> (all_close(img, true, fixed, from, to, c, tol) <==> forall|x: int|
            from <= x <= to ==> #[trigger] alike(img, x, fixed, c, tol)),
        !horizontal ==> (all_close(img, false, fixed, from, to, c, tol) <==> forall|y: int|
            from <= y <= to ==> #[trigger] alike(img, fixed, y, c, tol)),
{
    assert forall|v: int| close_at(
        img,
        (#[trigger] on_line(horizontal, fixed, v)).0,
        on_line(horizontal, fixed, v).1,
        c,
        tol,
    ) == (if horizontal {
        alike(img, v, fixed, c, tol)
    } else {
        alike(img, fixed, v, c, tol)
    }) by {}
    if horizontal {
        assert forall|x: int|
            all_close(img, true, fixed, from, to, c, tol) && from <= x <= to implies
            #[trigger] alike(img, x, fixed, c, tol) by {
            let p = on_line(true, fixed, x);
        }
    } else {
        assert forall|y: int|
            all_close(img, false, fixed, from, to, c, tol) && from <= y <= to implies
            #[trigger] alike(img, fixed, y, c, tol) by {
            let p = on_line(false, fixed, y);
        }
    }
}

/// A round goes no further in than a frame that is stuck, stays about the center, moves no edge
/// out or by more than one line, removes only background, and changes nothing only if stuck.
proof fn lemma_round_in_pixels(sh: Shrink, f: Frame, e: Frame)
    requires
        f.left <= sh.mid_x <= f.right,
        f.top <= sh.mid_y <= f.bottom,
    ensures
        ({
            let g = sh.round(f);
            &&& within(g, f)
            &&& g.left == f.left || g.left < sh.mid_x
            &&& g.right == f.right || g.right > sh.mid_x
            &&& g.top == f.top || g.top < sh.mid_y
            &&& g.bottom == f.bottom || g.bottom > sh.mid_y
            &&& g.left <= f.left + 1 && g.top <= f.top + 1
            &&& g.right >= f.right - 1 && g.bottom >= f.bottom - 1
            &&& background_between(sh.img, f, g, sh.colors, sh.tol)
            &&& g == f ==> stuck(sh.img, f, sh.mid_x, sh.mid_y, sh.colors, sh.tol)
            &&& stuck(sh.img, e, sh.mid_x, sh.mid_y, sh.colors, sh.tol) && within(e, f)
                ==> within(e, g)
        }),
{
    let a = sh.left_in(f);
    let b = sh.right_in(a);
    let c = sh.top_in(b);
    let d = sh.bottom_in(c);
    lemma_steps(sh, f);
    lemma_steps(sh, a);
    lemma_steps(sh, b);
    lemma_steps(sh, c);
    if stuck(sh.img, e, sh.mid_x, sh.mid_y, sh.colors, sh.tol) && within(e, f) {
        assert(within(e, a));
        assert(within(e, b));
        assert(within(e, c));
        assert(within(e, d));
    }
}

proof fn lemma_rounds_in_pixels(sh: Shrink, f: Frame, n: int, e: Frame)
    requires
        n >= 0,
        f.left <= sh.mid_x <= f.right,
        f.top <= sh.mid_y <= f.bottom,
    ensures
        ({
            let g = sh.rounds(f, n);
            &&& within(g, f)
            &&& g.left == f.left || g.left < sh.mid_x
            &&& g.right == f.right || g.right > sh.mid_x
            &&& g.top == f.top || g.top < sh.mid_y
            &&& g.bottom == f.bottom || g.bottom > sh.mid_y
            &&& g.left <= f.left + n && g.top <= f.top + n
            &&& g.right >= f.right - n && g.bottom >= f.bottom - n
            &&& background_between(sh.img, f, g, sh.colors, sh.tol)
            &&& stuck(sh.img, g, sh.mid_x, sh.mid_y, sh.colors, sh.tol) || (g.left - f.left) + (
            f.right - g.right) + (g.top - f.top) + (f.bottom - g.bottom) >= n
            &&& stuck(sh.img, e, sh.mid_x, sh.mid_y, sh.colors, sh.tol) && within(e, f)
                ==> within(e, g)
        }),
    decreases n,
{
    lemma_round_in_pixels(sh, f, e);
    if n > 0 && sh.round(f) != f {
        lemma_rounds_in_pixels(sh, sh.round(f), n - 1, e);
    }
}

/// A shrink told by pixels, for any four edge colors. The result `g` lies in the selection and
/// no edge crosses the center or moves further than the cap. What was trimmed looks like the
/// color of the edge that passed over it. Unless the rounds ran out, every edge ends next to
/// the center or in front of a pixel that does not look like that edge's own color. And `g` is
/// the largest such box: any other box `e` in the selection with that property lies in it.
pub proof fn law_shrink_in_pixels(
    img: Screenshot,
    f: Frame,
    colors: EdgeColors,
    tol: u8,
    g: Frame,
    e: Frame,
)
    requires
        f.left <= f.right,
        f.top <= f.bottom,
        g == shrink_of(img, f, colors, tol).rounds(f, MAX_EXTENT_SCAN as int),
    ensures
        ({
            let mid_x = (f.left + f.right) / 2;
            let mid_y = (f.top + f.bottom) / 2;
            &&& within(g, f)
            &&& g.left == f.left || g.left < mid_x
            &&& g.right == f.right || g.right > mid_x
            &&& g.top == f.top || g.top < mid_y
            &&& g.bottom == f.bottom || g.bottom > mid_y
            &&& g.left - f.left <= 2000 && f.right - g.right <= 2000
            &&& g.top - f.top <= 2000 && f.bottom - g.bottom <= 2000
            &&& background_between(img, f, g, colors, tol)
            &&& (g.left - f.left) + (f.right - g.right) + (g.top - f.top) + (f.bottom - g.bottom)
                < 2000 ==> stuck(img, g, mid_x, mid_y, colors, tol)
            &&& within(e, f) && stuck(img, e, mid_x, mid_y, colors, tol) ==> within(e, g)
        }),
{
    lemma_rounds_in_pixels(shrink_of(img, f, colors, tol), f, MAX_EXTENT_SCAN as int, e);
}

proof fn lemma_advance(sh: Shrink, f: Frame, n: int, to: int, side: Direction)
    requires
        n >= 0,
        f.left <= sh.mid_x <= f.right,
        f.top <= sh.mid_y <= f.bottom,
        own_background(sh.img, f, sh.colors, sh.tol, side, to),
        side is Left ==> to < sh.mid_x && to - f.left <= n,
        side is Right ==> to > sh.mid_x && f.right - to <= n,
        side is Up ==> to < sh.mid_y && to - f.top <= n,
        side is Down ==> to > sh.mid_y && f.bottom - to <= n,
    ensures
        side is Left ==> sh.rounds(f, n).left >= to,
        side is Right ==> sh.rounds(f, n).right <= to,
        side is Up ==> sh.rounds(f, n).top >= to,
        side is Down ==> sh.rounds(f, n).bottom <= to,
    decreases n,
{
    lemma_round_in_pixels(sh, f, f);
    let a = sh.left_in(f);
    let b = sh.right_in(a);
    let c = sh.top_in(b);
    lemma_steps(sh, f);
    lemma_steps(sh, a);
    lemma_steps(sh, b);
    lemma_steps(sh, c);
    if n > 0 && sh.round(f) != f {
        lemma_rounds_in_pixels(sh, sh.round(f), n - 1, f);
        lemma_advance(sh, sh.round(f), n - 1, to, side);
    }
}

/// Every line from the given side of `f` to the line `to` looks like that side's own color, over
/// the whole width or height of `f`.
pub open spec fn own_background(
    img: Screenshot,
    f: Frame,
    colors: EdgeColors,
    tol: u8,
    side: Direction,
    to: int,
) -> bool {
    match side {
        Direction::Left => forall|x: int, y: int|
            f.left < x <= to && f.top <= y <= f.bottom ==> #[trigger] alike(
                img,
                x,
                y,
                colors.left,
                tol,
            ),
        Direction::Right => forall|x: int, y: int|
            to <= x < f.right && f.top <= y <= f.bottom ==> #[trigger] alike(
                img,
                x,
                y,
                colors.right,
                tol,
            ),
        Direction::Up => forall|x: int, y: int|
            f.left <= x <= f.right && f.top < y <= to ==> #[trigger] alike(
                img,
                x,
                y,
                colors.top,
                tol,
            ),
        Direction::Down => forall|x: int, y: int|
            f.left <= x <= f.right && to <= y < f.bottom ==> #[trigger] alike(
                img,
                x,
                y,
                colors.bottom,
                tol,
            ),
    }
}

/// An edge moves over its own background, whatever colors the other edges have: if every line up
/// to `to`, short of the center and of the cap, looks like its color, it gets at least there.
pub proof fn law_edge_moves_over_its_own_background(
    img: Screenshot,
    f: Frame,
    colors: EdgeColors,
    tol: u8,
    g: Frame,
    side: Direction,
    to: int,
)
    requires
        f.left <= f.right,
        f.top <= f.bottom,
        g == shrink_of(img, f, colors, tol).rounds(f, MAX_EXTENT_SCAN as int),
        own_background(img, f, colors, tol, side, to),
        side is Left ==> to < (f.left + f.right) / 2 && to - f.left <= 2000,
        side is Right ==> to > (f.left + f.right) / 2 && f.right - to <= 2000,
        side is Up ==> to < (f.top + f.bottom) / 2 && to - f.top <= 2000,
        side is Down ==> to > (f.top + f.bottom) / 2 && f.bottom - to <= 2000,
    ensures
        side is Left ==> g.left >= to,
        side is Right ==> g.right <= to,
        side is Up ==> g.top >= to,
        side is Down ==> g.bottom <= to,
{
    lemma_advance(shrink_of(img, f, colors, tol), f, 2000, to, side);
}

/// A snapped selection told by pixels. Each side is first moved to the nearest place in the
/// image. A selection without area stays like that. Any other is shrunk, and the background of
/// each edge is the majority color of the line that this very edge sits on.
pub proof fn law_snapped_selection_in_pixels(
    img: Screenshot,
    rect: (i64, i64, i64, i64),
    tol: u8,
    r: (i64, i64, i64, i64),
)
    requires
        img.width > 0,
        img.height > 0,
        is_snapped(img, rect, tol, r),
    ensures
        ({
            let f = clamped_frame(img, rect);
            let g = frame_of(r);
            &&& g == (Frame {
                left: r.0 as int,
                top: r.1 as int,
                right: r.2 as int,
                bottom: r.3 as int,
            })
            &&& 0 <= f.left < img.width && 0 <= f.right < img.width
            &&& 0 <= f.top < img.height && 0 <= f.bottom < img.height
            &&& 0 <= rect.0 < img.width ==> f.left == rect.0
            &&& 0 <= rect.1 < img.height ==> f.top == rect.1
            &&& 0 <= rect.2 < img.width ==> f.right == rect.2
            &&& 0 <= rect.3 < img.height ==> f.bottom == rect.3
            &&& rect.0 < 0 ==> f.left == 0
            &&& rect.1 < 0 ==> f.top == 0
            &&& rect.2 < 0 ==> f.right == 0
            &&& rect.3 < 0 ==> f.bottom == 0
            &&& rect.0 >= img.width ==> f.left == img.width - 1
            &&& rect.1 >= img.height ==> f.top == img.height - 1
            &&& rect.2 >= img.width ==> f.right == img.width - 1
            &&& rect.3 >= img.height ==> f.bottom == img.height - 1
            &&& f.right <= f.left || f.bottom <= f.top ==> g == f
            &&& f.left < f.right && f.top < f.bottom ==> exists|colors: EdgeColors|
                #[trigger] majority_colors(img, f, colors) && snapped_with(img, f, colors, tol, g)
        }),
{
    let f = clamped_frame(img, rect);
    if f.left < f.right && f.top < f.bottom {
        let colors = choose|colors: EdgeColors| #[trigger]
            are_edge_modes(img, f, colors) && frame_of(r) == shrink_of(
                img,
                f,
                colors,
                tol,
            ).rounds(f, MAX_EXTENT_SCAN as int);
        assert forall|other: Rgb| #![trigger majority(img, f, colors, other)]
            majority(img, f, colors, other) by {
            law_edge_color_is_most_common(
                img,
                false,
                f.left,
                f.top,
                f.bottom,
                colors.left,
                other,
            );
            law_edge_color_is_most_common(
                img,
                false,
                f.right,
                f.top,
                f.bottom,
                colors.right,
                other,
            );
            law_edge_color_is_most_common(img, true, f.top, f.left, f.right, colors.top, other);
            law_edge_color_is_most_common(
                img,
                true,
                f.bottom,
                f.left,
                f.right,
                colors.bottom,
                other,
            );
        }
        assert forall|e: Frame| within(e, f) && #[trigger] stuck(
            img,
            e,
            (f.left + f.right) / 2,
            (f.top + f.bottom) / 2,
            colors,
            tol,
        ) implies within(e, frame_of(r)) by {
            law_shrink_in_pixels(img, f, colors, tol, frame_of(r), e);
        }
        law_shrink_in_pixels(img, f, colors, tol, frame_of(r), f);
        assert(majority_colors(img, f, colors) && snapped_with(img, f, colors, tol, frame_of(r)));
    }
}

/// On no edge of `f` does `other` have more pixels than that edge's color.
pub open spec fn majority(img: Screenshot, f: Frame, colors: EdgeColors, other: Rgb) -> bool {
    &&& places_of(img, false, f.left, f.top, f.bottom, other).len() <= places_of(
        img,
        false,
        f.left,
        f.top,
        f.bottom,
        colors.left,
    ).len()
    &&& places_of(img, false, f.right, f.top, f.bottom, other).len() <= places_of(
        img,
        false,
        f.right,
        f.top,
        f.bottom,
        colors.right,
    ).len()
    &&& places_of(img, true, f.top, f.left, f.right, other).len() <= places_of(
        img,
        true,
        f.top,
        f.left,
        f.right,
        colors.top,
    ).len()
    &&& places_of(img, true, f.bottom, f.left, f.right, other).len() <= places_of(
        img,
        true,
        f.bottom,
        f.left,
        f.right,
        colors.bottom,
    ).len()
}

pub open spec fn majority_colors(img: Screenshot, f: Frame, colors: EdgeColors) -> bool {
    forall|other: Rgb| #[trigger] majority(img, f, colors, other)
}

/// `g` is the largest box in `f` whose edges are all stuck, unless the rounds ran out, and what
/// lies between the two is background.
pub open spec fn snapped_with(
    img: Screenshot,
    f: Frame,
    colors: EdgeColors,
    tol: u8,
    g: Frame,
) -> bool {
    let mid_x = (f.left + f.right) / 2;
    let mid_y = (f.top + f.bottom) / 2;
    &&& within(g, f)
    &&& background_between(img, f, g, colors, tol)
    &&& (g.left - f.left) + (f.right - g.right) + (g.top - f.top) + (f.bottom - g.bottom) < 2000
        ==> stuck(img, g, mid_x, mid_y, colors, tol)
    &&& forall|e: Frame|
        within(e, f) && #[trigger] stuck(img, e, mid_x, mid_y, colors, tol) ==> within(e, g)
}

} // verus!
