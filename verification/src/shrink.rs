//! Shrink-to-fit: a dragged selection is trimmed to what is inside it.

use crate::extent::{close_at, color_close, MAX_EXTENT_SCAN};
use crate::screenshot::{Rgb, Screenshot};
use std::collections::HashMap;
use vstd::prelude::*;

verus! {

broadcast use vstd::std_specs::hash::group_hash_axioms;

/// The background assumed where an edge has no pixel at all.
pub open spec fn white() -> Rgb {
    (255, 255, 255)
}

/// The point at `v` on the row `fixed`, or on the column `fixed`.
pub open spec fn on_line(horizontal: bool, fixed: int, v: int) -> (int, int) {
    if horizontal {
        (v, fixed)
    } else {
        (fixed, v)
    }
}

/// Whether the image has a pixel of exactly the color `c` at `v` on the line.
pub open spec fn has_color(img: Screenshot, horizontal: bool, fixed: int, v: int, c: Rgb) -> bool {
    let (x, y) = on_line(horizontal, fixed, v);
    img.covers(x, y) && img.rgb(x, y) == c
}

/// How many pixels from `lo` up to but not at `hi` on the line have exactly the color `c`.
pub open spec fn color_count(
    img: Screenshot,
    horizontal: bool,
    fixed: int,
    lo: int,
    hi: int,
    c: Rgb,
) -> int
    decreases hi - lo,
{
    if hi <= lo {
        0
    } else {
        color_count(img, horizontal, fixed, lo, hi - 1, c) + if has_color(
            img,
            horizontal,
            fixed,
            hi - 1,
            c,
        ) {
            1int
        } else {
            0
        }
    }
}

/// `c` is a most common color of the line from `lo` up to but not at `hi`; a line outside the
/// image is taken to be white.
pub open spec fn is_mode_between(
    img: Screenshot,
    horizontal: bool,
    fixed: int,
    lo: int,
    hi: int,
    c: Rgb,
) -> bool {
    if forall|v: int|
        lo <= v < hi ==> !img.covers(
            (#[trigger] on_line(horizontal, fixed, v)).0,
            on_line(horizontal, fixed, v).1,
        ) {
        c == white()
    } else {
        &&& color_count(img, horizontal, fixed, lo, hi, c) > 0
        &&& forall|other: Rgb| #[trigger]
            color_count(img, horizontal, fixed, lo, hi, other) <= color_count(
                img,
                horizontal,
                fixed,
                lo,
                hi,
                c,
            )
    }
}

/// `c` is a most common color of the line between `from` and `to`, both included.
pub open spec fn is_mode(
    img: Screenshot,
    horizontal: bool,
    fixed: int,
    from: int,
    to: int,
    c: Rgb,
) -> bool {
    if from <= to {
        is_mode_between(img, horizontal, fixed, from, to + 1, c)
    } else {
        is_mode_between(img, horizontal, fixed, to, from + 1, c)
    }
}

/// Whether every point of the line between `from` and `to`, both included, is a pixel within
/// `tol` of `reference`.
pub open spec fn all_close(
    img: Screenshot,
    horizontal: bool,
    fixed: int,
    from: int,
    to: int,
    reference: Rgb,
    tol: u8,
) -> bool {
    let (lo, hi) = if from <= to {
        (from, to)
    } else {
        (to, from)
    };
    forall|v: int|
        lo <= v <= hi ==> close_at(
            img,
            (#[trigger] on_line(horizontal, fixed, v)).0,
            on_line(horizontal, fixed, v).1,
            reference,
            tol,
        )
}

/// A color as one number.
pub open spec fn packed(c: Rgb) -> int {
    c.0 * 65536 + c.1 * 256 + c.2
}

fn pack(c: Rgb) -> (r: u32)
    ensures
        r == packed(c),
{
    c.0 as u32 * 65536 + c.1 as u32 * 256 + c.2 as u32
}

proof fn lemma_count_bounds(
    img: Screenshot,
    horizontal: bool,
    fixed: int,
    lo: int,
    hi: int,
    c: Rgb,
)
    ensures
        0 <= color_count(img, horizontal, fixed, lo, hi, c) <= if hi <= lo {
            0
        } else {
            hi - lo
        },
    decreases hi - lo,
{
    if hi > lo {
        lemma_count_bounds(img, horizontal, fixed, lo, hi - 1, c);
    }
}

/// Points outside the image do not count.
proof fn lemma_count_clipped(
    img: Screenshot,
    horizontal: bool,
    fixed: int,
    lo: int,
    start: int,
    end: int,
    hi: int,
    c: Rgb,
)
    requires
        lo <= start,
        start <= end <= hi,
        forall|v: int| lo <= v < start ==> !#[trigger] has_color(img, horizontal, fixed, v, c),
        forall|v: int| end <= v < hi ==> !#[trigger] has_color(img, horizontal, fixed, v, c),
    ensures
        color_count(img, horizontal, fixed, lo, hi, c) == color_count(
            img,
            horizontal,
            fixed,
            start,
            end,
            c,
        ),
    decreases hi - lo,
{
    if end < hi {
        assert(!has_color(img, horizontal, fixed, hi - 1, c));
        lemma_count_clipped(img, horizontal, fixed, lo, start, end, hi - 1, c);
    } else if start < end {
        lemma_count_clipped(img, horizontal, fixed, lo, start, end - 1, hi - 1, c);
    } else if lo < hi {
        assert(!has_color(img, horizontal, fixed, hi - 1, c));
        lemma_count_clipped(img, horizontal, fixed, lo, start - 1, end - 1, hi - 1, c);
    }
}

/// The most common exact color between `from` and `to` on the row or column `fixed`: the
/// background that one edge of a selection sits on. Which of several equally common colors it
/// is, is left open.
pub fn edge_mode_color(img: &Screenshot, horizontal: bool, fixed: i64, from: i64, to: i64) -> (r:
    Rgb)
    requires
        img.inv(),
    ensures
        is_mode(*img, horizontal, fixed as int, from as int, to as int, r),
{
    let (lo, hi): (i64, i64) = if from <= to {
        (from, to)
    } else {
        (to, from)
    };
    let (length, lines): (i64, i64) = if horizontal {
        (img.width as i64, img.height as i64)
    } else {
        (img.height as i64, img.width as i64)
    };
    let start: i64 = if lo < 0 {
        0
    } else {
        lo
    };
    let end: i64 = if hi < length {
        hi + 1
    } else {
        length
    };
    if fixed < 0 || fixed >= lines || start >= end {
        return (255, 255, 255);
    }
    let mut counts: HashMap<u32, u32> = HashMap::new();
    let mut best: Rgb = (255, 255, 255);
    let mut best_count: u32 = 0;
    let mut v: i64 = start;
    while v < end
        invariant
            img.inv(),
            0 <= start <= v <= end <= length <= u32::MAX,
            0 <= fixed < lines,
            length == if horizontal {
                img.width
            } else {
                img.height
            },
            lines == if horizontal {
                img.height
            } else {
                img.width
            },
            best_count == color_count(
                *img,
                horizontal,
                fixed as int,
                start as int,
                v as int,
                best,
            ),
            v > start ==> best_count > 0,
            forall|c: Rgb| #[trigger]
                color_count(*img, horizontal, fixed as int, start as int, v as int, c)
                    <= best_count,
            forall|c: Rgb| #[trigger]
                color_count(*img, horizontal, fixed as int, start as int, v as int, c) == (
                if counts@.contains_key(packed(c) as u32) {
                    counts@[packed(c) as u32] as int
                } else {
                    0
                }),
        decreases end - v,
    {
        let (x, y): (i64, i64) = if horizontal {
            (v, fixed)
        } else {
            (fixed, v)
        };
        let (r, g, b, _) = img.rgba_at(x as u32, y as u32);
        let here: Rgb = (r, g, b);
        let key: u32 = pack(here);
        let seen: u32 = match counts.get(&key) {
            Some(n) => *n,
            None => 0,
        };
        proof {
            lemma_count_bounds(*img, horizontal, fixed as int, start as int, v as int, here);
            assert(seen == color_count(
                *img,
                horizontal,
                fixed as int,
                start as int,
                v as int,
                here,
            ));
        }
        counts.insert(key, seen + 1);
        let ghost earlier = best;
        let ghost earlier_count = best_count;
        if seen + 1 > best_count {
            best = here;
            best_count = seen + 1;
        }
        proof {
            assert forall|c: Rgb| #[trigger]
                color_count(*img, horizontal, fixed as int, start as int, v + 1, c) == (
                if counts@.contains_key(packed(c) as u32) {
                    counts@[packed(c) as u32] as int
                } else {
                    0
                }) by {
                let before = color_count(
                    *img,
                    horizontal,
                    fixed as int,
                    start as int,
                    v as int,
                    c,
                );
                if packed(c) == packed(here) {
                    assert(c == here);
                }
            }
            assert forall|c: Rgb| #[trigger]
                color_count(*img, horizontal, fixed as int, start as int, v + 1, c)
                    <= best_count by {
                let before = color_count(
                    *img,
                    horizontal,
                    fixed as int,
                    start as int,
                    v as int,
                    c,
                );
                assert(before <= earlier_count);
            }
            let earlier_before = color_count(
                *img,
                horizontal,
                fixed as int,
                start as int,
                v as int,
                earlier,
            );
        }
        v = v + 1;
    }
    proof {
        assert forall|c: Rgb| #[trigger]
            color_count(*img, horizontal, fixed as int, lo as int, hi + 1, c) == color_count(
                *img,
                horizontal,
                fixed as int,
                start as int,
                end as int,
                c,
            ) by {
            lemma_count_clipped(
                *img,
                horizontal,
                fixed as int,
                lo as int,
                start as int,
                end as int,
                hi + 1,
                c,
            );
        }
        let first = on_line(horizontal, fixed as int, start as int);
        assert(img.covers(first.0, first.1));
    }
    best
}

/// Whether every pixel between `from` and `to` on the row or column `fixed` is within `tol` of
/// `reference`, so that the line is still background.
pub fn line_matches(
    img: &Screenshot,
    horizontal: bool,
    fixed: i64,
    from: i64,
    to: i64,
    reference: Rgb,
    tol: u8,
) -> (r: bool)
    requires
        img.inv(),
    ensures
        r == all_close(*img, horizontal, fixed as int, from as int, to as int, reference, tol),
{
    let (lo, hi): (i64, i64) = if from <= to {
        (from, to)
    } else {
        (to, from)
    };
    let mut v: i64 = lo;
    loop
        invariant
            img.inv(),
            lo <= v <= hi,
            (lo, hi) == if from <= to {
                (from, to)
            } else {
                (to, from)
            },
            forall|u: int|
                lo <= u < v ==> close_at(
                    *img,
                    (#[trigger] on_line(horizontal, fixed as int, u)).0,
                    on_line(horizontal, fixed as int, u).1,
                    reference,
                    tol,
                ),
        decreases hi - v,
    {
        let (x, y): (i64, i64) = if horizontal {
            (v, fixed)
        } else {
            (fixed, v)
        };
        assert((x as int, y as int) == on_line(horizontal, fixed as int, v as int));
        if !color_close(img, x, y, reference, tol) {
            return false;
        }
        if v == hi {
            return true;
        }
        v = v + 1;
    }
}

/// The four sides of a selection, in pixels.
pub struct Frame {
    pub left: int,
    pub top: int,
    pub right: int,
    pub bottom: int,
}

/// The background color assumed behind each edge of a selection.
#[derive(Clone, Copy, Debug)]
pub struct EdgeColors {
    pub left: Rgb,
    pub right: Rgb,
    pub top: Rgb,
    pub bottom: Rgb,
}

/// A shrink: the image, the center that no edge crosses, the background of each edge and the
/// tolerance.
pub struct Shrink {
    pub img: Screenshot,
    pub mid_x: int,
    pub mid_y: int,
    pub colors: EdgeColors,
    pub tol: u8,
}

impl Shrink {
    /// The left edge moves one column in, if that column is short of the center and all
    /// background between the top and bottom edges. The other three edges do the same.
    pub open spec fn left_in(self, f: Frame) -> Frame {
        if f.left + 1 < self.mid_x && all_close(
            self.img,
            false,
            f.left + 1,
            f.top,
            f.bottom,
            self.colors.left,
            self.tol,
        ) {
            Frame { left: f.left + 1, ..f }
        } else {
            f
        }
    }

    pub open spec fn right_in(self, f: Frame) -> Frame {
        if f.right - 1 > self.mid_x && all_close(
            self.img,
            false,
            f.right - 1,
            f.top,
            f.bottom,
            self.colors.right,
            self.tol,
        ) {
            Frame { right: f.right - 1, ..f }
        } else {
            f
        }
    }

    pub open spec fn top_in(self, f: Frame) -> Frame {
        if f.top + 1 < self.mid_y && all_close(
            self.img,
            true,
            f.top + 1,
            f.left,
            f.right,
            self.colors.top,
            self.tol,
        ) {
            Frame { top: f.top + 1, ..f }
        } else {
            f
        }
    }

    pub open spec fn bottom_in(self, f: Frame) -> Frame {
        if f.bottom - 1 > self.mid_y && all_close(
            self.img,
            true,
            f.bottom - 1,
            f.left,
            f.right,
            self.colors.bottom,
            self.tol,
        ) {
            Frame { bottom: f.bottom - 1, ..f }
        } else {
            f
        }
    }

    /// Each edge moves in by at most one line.
    pub open spec fn round(self, f: Frame) -> Frame {
        self.bottom_in(self.top_in(self.right_in(self.left_in(f))))
    }

    /// Rounds until no edge moves any more, `n` of them at most.
    pub open spec fn rounds(self, f: Frame, n: int) -> Frame
        decreases n,
    {
        if n <= 0 || self.round(f) == f {
            f
        } else {
            self.rounds(self.round(f), n - 1)
        }
    }
}

/// The value of `v` nearest to it between 0 and `max`.
pub open spec fn clamped(v: int, max: int) -> int {
    if v < 0 {
        0
    } else if v > max {
        max
    } else {
        v
    }
}

/// The selection (left, top, right, bottom) with each side moved into the image.
pub open spec fn clamped_frame(img: Screenshot, rect: (i64, i64, i64, i64)) -> Frame {
    Frame {
        left: clamped(rect.0 as int, img.width - 1),
        top: clamped(rect.1 as int, img.height - 1),
        right: clamped(rect.2 as int, img.width - 1),
        bottom: clamped(rect.3 as int, img.height - 1),
    }
}

pub open spec fn frame_of(rect: (i64, i64, i64, i64)) -> Frame {
    Frame { left: rect.0 as int, top: rect.1 as int, right: rect.2 as int, bottom: rect.3 as int }
}

/// The shrink of the selection `f` in `img`, about its own center.
pub open spec fn shrink_of(img: Screenshot, f: Frame, colors: EdgeColors, tol: u8) -> Shrink {
    Shrink {
        img,
        mid_x: (f.left + f.right) / 2,
        mid_y: (f.top + f.bottom) / 2,
        colors,
        tol,
    }
}

/// Each of `colors` is a most common color of its edge of `f`.
pub open spec fn are_edge_modes(img: Screenshot, f: Frame, colors: EdgeColors) -> bool {
    &&& is_mode(img, false, f.left, f.top, f.bottom, colors.left)
    &&& is_mode(img, false, f.right, f.top, f.bottom, colors.right)
    &&& is_mode(img, true, f.top, f.left, f.right, colors.top)
    &&& is_mode(img, true, f.bottom, f.left, f.right, colors.bottom)
}

/// `r` is what the selection `rect` is snapped to: the selection moved into the image, and
/// shrunk about its center if it has any area, with a most common color of each edge as the
/// background of that edge.
pub open spec fn is_snapped(
    img: Screenshot,
    rect: (i64, i64, i64, i64),
    tol: u8,
    r: (i64, i64, i64, i64),
) -> bool {
    let f = clamped_frame(img, rect);
    if f.right <= f.left || f.bottom <= f.top {
        frame_of(r) == f
    } else {
        exists|colors: EdgeColors| #[trigger]
            are_edge_modes(img, f, colors) && frame_of(r) == shrink_of(
                img,
                f,
                colors,
                tol,
            ).rounds(f, MAX_EXTENT_SCAN as int)
    }
}

/// Shrinks a selection that lies in the image, with the background of each edge given.
pub fn shrink_with(
    img: &Screenshot,
    rect: (i64, i64, i64, i64),
    colors: EdgeColors,
    tol: u8,
) -> (r: (i64, i64, i64, i64))
    requires
        img.inv(),
        0 <= rect.0 < rect.2 < img.width,
        0 <= rect.1 < rect.3 < img.height,
    ensures
        frame_of(r) == shrink_of(*img, frame_of(rect), colors, tol).rounds(
            frame_of(rect),
            MAX_EXTENT_SCAN as int,
        ),
{
    let (l, t, r, b) = rect;
    let mid_x: i64 = (l + r) / 2;
    let mid_y: i64 = (t + b) / 2;
    let ghost sh = shrink_of(*img, frame_of(rect), colors, tol);
    let ghost goal = sh.rounds(frame_of(rect), MAX_EXTENT_SCAN as int);
    let mut nl: i64 = l;
    let mut nr: i64 = r;
    let mut nt: i64 = t;
    let mut nb: i64 = b;
    let mut iterations: i64 = 0;
    loop
        invariant_except_break
            0 <= iterations < MAX_EXTENT_SCAN,
            goal == sh.rounds(frame_of((nl, nt, nr, nb)), MAX_EXTENT_SCAN - iterations),
        invariant
            img.inv(),
            sh == shrink_of(*img, frame_of(rect), colors, tol),
            sh.mid_x == mid_x,
            sh.mid_y == mid_y,
            0 <= nl <= mid_x <= nr < img.width,
            0 <= nt <= mid_y <= nb < img.height,
        ensures
            goal == frame_of((nl, nt, nr, nb)),
        decreases MAX_EXTENT_SCAN - iterations,
    {
        let ghost before = frame_of((nl, nt, nr, nb));
        let mut changed = false;
        if nl + 1 < mid_x && line_matches(img, false, nl + 1, nt, nb, colors.left, tol) {
            nl = nl + 1;
            changed = true;
        }
        if nr - 1 > mid_x && line_matches(img, false, nr - 1, nt, nb, colors.right, tol) {
            nr = nr - 1;
            changed = true;
        }
        if nt + 1 < mid_y && line_matches(img, true, nt + 1, nl, nr, colors.top, tol) {
            nt = nt + 1;
            changed = true;
        }
        if nb - 1 > mid_y && line_matches(img, true, nb - 1, nl, nr, colors.bottom, tol) {
            nb = nb - 1;
            changed = true;
        }
        assert(frame_of((nl, nt, nr, nb)) == sh.round(before));
        assert(changed <==> sh.round(before) != before);
        proof {
            reveal_with_fuel(Shrink::rounds, 2);
        }
        iterations = iterations + 1;
        if !changed || iterations >= MAX_EXTENT_SCAN {
            break;
        }
    }
    (nl, nt, nr, nb)
}

fn clamp_to(v: i64, max: i64) -> (r: i64)
    requires
        0 <= max,
    ensures
        r == clamped(v as int, max as int),
{
    if v < 0 {
        0
    } else if v > max {
        max
    } else {
        v
    }
}

/// Snaps a dragged selection (left, top, right, bottom) to its content: each side is moved into
/// the image, then each edge moves in while the whole line ahead of it is background. A
/// selection without area is only moved into the image.
pub fn shrink_rect(img: &Screenshot, rect: (i64, i64, i64, i64), tol: u8) -> (r: (
    i64,
    i64,
    i64,
    i64,
))
    requires
        img.inv(),
        img.width > 0,
        img.height > 0,
    ensures
        is_snapped(*img, rect, tol, r),
{
    let l = clamp_to(rect.0, img.width as i64 - 1);
    let r = clamp_to(rect.2, img.width as i64 - 1);
    let t = clamp_to(rect.1, img.height as i64 - 1);
    let b = clamp_to(rect.3, img.height as i64 - 1);
    if r <= l || b <= t {
        return (l, t, r, b);
    }
    let colors = EdgeColors {
        left: edge_mode_color(img, false, l, t, b),
        right: edge_mode_color(img, false, r, t, b),
        top: edge_mode_color(img, true, t, l, r),
        bottom: edge_mode_color(img, true, b, l, r),
    };
    assert(are_edge_modes(*img, clamped_frame(*img, rect), colors));
    shrink_with(img, (l, t, r, b), colors, tol)
}

// Laws

impl Frame {
    /// No side of this frame lies outside `other`.
    pub open spec fn inside(self, other: Frame) -> bool {
        &&& other.left <= self.left
        &&& other.top <= self.top
        &&& self.right <= other.right
        &&& self.bottom <= other.bottom
    }
}

impl Shrink {
    /// The center lies within the frame.
    pub open spec fn centered(self, f: Frame) -> bool {
        f.left <= self.mid_x <= f.right && f.top <= self.mid_y <= f.bottom
    }

    /// How many lines lie between the sides of `f` and those of `g`, all four taken together.
    pub open spec fn moved(f: Frame, g: Frame) -> int {
        (g.left - f.left) + (f.right - g.right) + (g.top - f.top) + (f.bottom - g.bottom)
    }

    /// Every line between a side of `f` and the same side of `g` is background, as far as it
    /// lies in `g`.
    pub open spec fn trimmed_background(self, f: Frame, g: Frame) -> bool {
        &&& forall|x: int|
            f.left < x <= g.left ==> #[trigger] all_close(
                self.img,
                false,
                x,
                g.top,
                g.bottom,
                self.colors.left,
                self.tol,
            )
        &&& forall|x: int|
            g.right <= x < f.right ==> #[trigger] all_close(
                self.img,
                false,
                x,
                g.top,
                g.bottom,
                self.colors.right,
                self.tol,
            )
        &&& forall|y: int|
            f.top < y <= g.top ==> #[trigger] all_close(
                self.img,
                true,
                y,
                g.left,
                g.right,
                self.colors.top,
                self.tol,
            )
        &&& forall|y: int|
            g.bottom <= y < f.bottom ==> #[trigger] all_close(
                self.img,
                true,
                y,
                g.left,
                g.right,
                self.colors.bottom,
                self.tol,
            )
    }
}

proof fn lemma_all_close_narrower(
    img: Screenshot,
    horizontal: bool,
    fixed: int,
    from: int,
    to: int,
    from2: int,
    to2: int,
    c: Rgb,
    tol: u8,
    tol2: u8,
)
    requires
        from <= from2 <= to2 <= to,
        tol <= tol2,
        all_close(img, horizontal, fixed, from, to, c, tol),
    ensures
        all_close(img, horizontal, fixed, from2, to2, c, tol2),
{
}

/// One round keeps the center within the frame, moves no edge outward, trims only background
/// and moves at least one edge unless it changes nothing.
proof fn lemma_round(sh: Shrink, f: Frame)
    requires
        sh.centered(f),
    ensures
        sh.round(f).inside(f),
        sh.centered(sh.round(f)),
        sh.trimmed_background(f, sh.round(f)),
        sh.round(f) == f || Shrink::moved(f, sh.round(f)) >= 1,
{
    let a = sh.left_in(f);
    let b = sh.right_in(a);
    let c = sh.top_in(b);
    let d = sh.bottom_in(c);
    assert forall|x: int| f.left < x <= d.left implies #[trigger] all_close(
        sh.img,
        false,
        x,
        d.top,
        d.bottom,
        sh.colors.left,
        sh.tol,
    ) by {
        lemma_all_close_narrower(
            sh.img,
            false,
            x,
            f.top,
            f.bottom,
            d.top,
            d.bottom,
            sh.colors.left,
            sh.tol,
            sh.tol,
        );
    }
    assert forall|x: int| d.right <= x < f.right implies #[trigger] all_close(
        sh.img,
        false,
        x,
        d.top,
        d.bottom,
        sh.colors.right,
        sh.tol,
    ) by {
        lemma_all_close_narrower(
            sh.img,
            false,
            x,
            f.top,
            f.bottom,
            d.top,
            d.bottom,
            sh.colors.right,
            sh.tol,
            sh.tol,
        );
    }
}

proof fn lemma_rounds(sh: Shrink, f: Frame, n: int)
    requires
        sh.centered(f),
        n >= 0,
    ensures
        sh.rounds(f, n).inside(f),
        sh.centered(sh.rounds(f, n)),
        sh.trimmed_background(f, sh.rounds(f, n)),
        sh.round(sh.rounds(f, n)) == sh.rounds(f, n) || Shrink::moved(f, sh.rounds(f, n)) >= n,
    decreases n,
{
    if n > 0 && sh.round(f) != f {
        let g = sh.round(f);
        let h = sh.rounds(g, n - 1);
        lemma_round(sh, f);
        lemma_rounds(sh, g, n - 1);
        assert forall|x: int| f.left < x <= h.left implies #[trigger] all_close(
            sh.img,
            false,
            x,
            h.top,
            h.bottom,
            sh.colors.left,
            sh.tol,
        ) by {
            if x <= g.left {
                lemma_all_close_narrower(
                    sh.img,
                    false,
                    x,
                    g.top,
                    g.bottom,
                    h.top,
                    h.bottom,
                    sh.colors.left,
                    sh.tol,
                    sh.tol,
                );
            }
        }
        assert forall|x: int| h.right <= x < f.right implies #[trigger] all_close(
            sh.img,
            false,
            x,
            h.top,
            h.bottom,
            sh.colors.right,
            sh.tol,
        ) by {
            if x >= g.right {
                lemma_all_close_narrower(
                    sh.img,
                    false,
                    x,
                    g.top,
                    g.bottom,
                    h.top,
                    h.bottom,
                    sh.colors.right,
                    sh.tol,
                    sh.tol,
                );
            }
        }
        assert forall|y: int| f.top < y <= h.top implies #[trigger] all_close(
            sh.img,
            true,
            y,
            h.left,
            h.right,
            sh.colors.top,
            sh.tol,
        ) by {
            if y <= g.top {
                lemma_all_close_narrower(
                    sh.img,
                    true,
                    y,
                    g.left,
                    g.right,
                    h.left,
                    h.right,
                    sh.colors.top,
                    sh.tol,
                    sh.tol,
                );
            }
        }
        assert forall|y: int| h.bottom <= y < f.bottom implies #[trigger] all_close(
            sh.img,
            true,
            y,
            h.left,
            h.right,
            sh.colors.bottom,
            sh.tol,
        ) by {
            if y >= g.bottom {
                lemma_all_close_narrower(
                    sh.img,
                    true,
                    y,
                    g.left,
                    g.right,
                    h.left,
                    h.right,
                    sh.colors.bottom,
                    sh.tol,
                    sh.tol,
                );
            }
        }
    }
}

/// A shrunk selection lies in the dragged one and still contains its center, so that opposing
/// edges never cross.
pub proof fn law_shrink_stays_inside(
    img: Screenshot,
    f: Frame,
    colors: EdgeColors,
    tol: u8,
    n: int,
)
    requires
        f.left <= f.right,
        f.top <= f.bottom,
        n >= 0,
    ensures
        ({
            let sh = shrink_of(img, f, colors, tol);
            let g = sh.rounds(f, n);
            g.inside(f) && sh.centered(g)
        }),
{
    lemma_rounds(shrink_of(img, f, colors, tol), f, n);
}

/// A shrink removes nothing but background: every removed row and column is within tolerance
/// of its edge's color over the whole width or height of what is left.
pub proof fn law_shrink_trims_only_background(
    img: Screenshot,
    f: Frame,
    colors: EdgeColors,
    tol: u8,
    n: int,
)
    requires
        f.left <= f.right,
        f.top <= f.bottom,
        n >= 0,
    ensures
        ({
            let sh = shrink_of(img, f, colors, tol);
            sh.trimmed_background(f, sh.rounds(f, n))
        }),
{
    lemma_rounds(shrink_of(img, f, colors, tol), f, n);
}

/// A shrink stops only where it has to: each edge ends next to the center or in front of a line
/// that is not all background, and shrinking again changes nothing, unless the rounds ran out.
/// They can run out only once the edges have moved at least as many lines as there are rounds.
pub proof fn law_shrink_stops_at_content(
    img: Screenshot,
    f: Frame,
    colors: EdgeColors,
    tol: u8,
    n: int,
)
    requires
        f.left <= f.right,
        f.top <= f.bottom,
        n >= 0,
    ensures
        ({
            let sh = shrink_of(img, f, colors, tol);
            let g = sh.rounds(f, n);
            ||| Shrink::moved(f, g) >= n
            ||| {
                &&& sh.left_in(g) == g
                &&& sh.right_in(g) == g
                &&& sh.top_in(g) == g
                &&& sh.bottom_in(g) == g
                &&& sh.rounds(g, n) == g
            }
        }),
{
    lemma_rounds(shrink_of(img, f, colors, tol), f, n);
}

proof fn lemma_round_monotone(low: Shrink, high: Shrink, f: Frame, g: Frame)
    requires
        high == (Shrink { tol: high.tol, ..low }),
        low.tol <= high.tol,
        low.centered(f),
        high.centered(g),
        g.inside(f),
    ensures
        high.round(g).inside(low.round(f)),
{
    let (fa, ga) = (low.left_in(f), high.left_in(g));
    let (fb, gb) = (low.right_in(fa), high.right_in(ga));
    let (fc, gc) = (low.top_in(fb), high.top_in(gb));
    if fa.left == f.left + 1 && g.left == f.left {
        lemma_all_close_narrower(
            low.img,
            false,
            f.left + 1,
            f.top,
            f.bottom,
            g.top,
            g.bottom,
            low.colors.left,
            low.tol,
            high.tol,
        );
    }
    assert(ga.inside(fa));
    if fb.right == fa.right - 1 && ga.right == fa.right {
        lemma_all_close_narrower(
            low.img,
            false,
            fa.right - 1,
            fa.top,
            fa.bottom,
            ga.top,
            ga.bottom,
            low.colors.right,
            low.tol,
            high.tol,
        );
    }
    assert(gb.inside(fb));
    if fc.top == fb.top + 1 && gb.top == fb.top {
        lemma_all_close_narrower(
            low.img,
            true,
            fb.top + 1,
            fb.left,
            fb.right,
            gb.left,
            gb.right,
            low.colors.top,
            low.tol,
            high.tol,
        );
    }
    assert(gc.inside(fc));
    if low.bottom_in(fc).bottom == fc.bottom - 1 && gc.bottom == fc.bottom {
        lemma_all_close_narrower(
            low.img,
            true,
            fc.bottom - 1,
            fc.left,
            fc.right,
            gc.left,
            gc.right,
            low.colors.bottom,
            low.tol,
            high.tol,
        );
    }
}

proof fn lemma_rounds_monotone(low: Shrink, high: Shrink, f: Frame, g: Frame, n: int)
    requires
        high == (Shrink { tol: high.tol, ..low }),
        low.tol <= high.tol,
        low.centered(f),
        high.centered(g),
        g.inside(f),
        n >= 0,
    ensures
        high.rounds(g, n).inside(low.rounds(f, n)),
    decreases n,
{
    if n > 0 {
        lemma_round_monotone(low, high, f, g);
        lemma_round(low, f);
        lemma_round(high, g);
        if low.round(f) == f {
            lemma_rounds(high, g, n);
        } else if high.round(g) == g {
            lemma_rounds_monotone(low, high, low.round(f), g, n - 1);
            assert(high.rounds(g, n - 1) == g);
        } else {
            lemma_rounds_monotone(low, high, low.round(f), high.round(g), n - 1);
        }
    }
}

/// With the same edge colors, a higher tolerance shrinks at least as far.
pub proof fn law_higher_tolerance_shrinks_further(
    img: Screenshot,
    f: Frame,
    colors: EdgeColors,
    low: u8,
    high: u8,
    n: int,
)
    requires
        f.left <= f.right,
        f.top <= f.bottom,
        low <= high,
        n >= 0,
    ensures
        shrink_of(img, f, colors, high).rounds(f, n).inside(
            shrink_of(img, f, colors, low).rounds(f, n),
        ),
{
    lemma_rounds_monotone(
        shrink_of(img, f, colors, low),
        shrink_of(img, f, colors, high),
        f,
        f,
        n,
    );
}

/// Whether everything in `f` but not in `object` has exactly the color `c`.
pub open spec fn plain_around(img: Screenshot, f: Frame, object: Frame, c: Rgb) -> bool {
    forall|x: int, y: int|
        #![trigger img.covers(x, y)]
        #![trigger img.rgb(x, y)]
        f.left <= x <= f.right && f.top <= y <= f.bottom && !(object.left <= x <= object.right
            && object.top <= y <= object.bottom) ==> img.covers(x, y) && img.rgb(x, y) == c
}

/// Whether each side of `object` has a pixel that stands out from `c`.
pub open spec fn stands_out(img: Screenshot, object: Frame, c: Rgb, tol: u8) -> bool {
    &&& exists|y: int|
        object.top <= y <= object.bottom && !#[trigger] close_at(img, object.left, y, c, tol)
    &&& exists|y: int|
        object.top <= y <= object.bottom && !#[trigger] close_at(img, object.right, y, c, tol)
    &&& exists|x: int|
        object.left <= x <= object.right && !#[trigger] close_at(img, x, object.top, c, tol)
    &&& exists|x: int|
        object.left <= x <= object.right && !#[trigger] close_at(img, x, object.bottom, c, tol)
}

/// A round never cuts into an object on a plain background, and moves every edge that is not
/// yet next to it.
proof fn lemma_round_about_object(sh: Shrink, f: Frame, object: Frame, g: Frame, c: Rgb)
    requires
        plain_around(sh.img, f, object, c),
        stands_out(sh.img, object, c, sh.tol),
        sh.colors == (EdgeColors { left: c, right: c, top: c, bottom: c }),
        object.left <= sh.mid_x <= object.right,
        object.top <= sh.mid_y <= object.bottom,
        g.inside(f),
        g.left < object.left,
        object.right < g.right,
        g.top < object.top,
        object.bottom < g.bottom,
    ensures
        sh.round(g).left < object.left,
        object.right < sh.round(g).right,
        sh.round(g).top < object.top,
        object.bottom < sh.round(g).bottom,
        g.left < object.left - 1 ==> sh.round(g).left == g.left + 1,
        g.right > object.right + 1 ==> sh.round(g).right == g.right - 1,
        g.top < object.top - 1 ==> sh.round(g).top == g.top + 1,
        g.bottom > object.bottom + 1 ==> sh.round(g).bottom == g.bottom - 1,
{
    let a = sh.left_in(g);
    let b = sh.right_in(a);
    let d = sh.top_in(b);
    let yl = choose|y: int|
        object.top <= y <= object.bottom && !#[trigger] close_at(
            sh.img,
            object.left,
            y,
            c,
            sh.tol,
        );
    let yr = choose|y: int|
        object.top <= y <= object.bottom && !#[trigger] close_at(
            sh.img,
            object.right,
            y,
            c,
            sh.tol,
        );
    let xt = choose|x: int|
        object.left <= x <= object.right && !#[trigger] close_at(
            sh.img,
            x,
            object.top,
            c,
            sh.tol,
        );
    let xb = choose|x: int|
        object.left <= x <= object.right && !#[trigger] close_at(
            sh.img,
            x,
            object.bottom,
            c,
            sh.tol,
        );
    assert(on_line(false, object.left, yl) == (object.left, yl));
    assert(on_line(false, object.right, yr) == (object.right, yr));
    assert(on_line(true, object.top, xt) == (xt, object.top));
    assert(on_line(true, object.bottom, xb) == (xb, object.bottom));
    assert(!all_close(sh.img, false, object.left, g.top, g.bottom, c, sh.tol));
    assert(a.left < object.left);
    assert(!all_close(sh.img, false, object.right, a.top, a.bottom, c, sh.tol));
    assert(object.right < b.right);
    assert(!all_close(sh.img, true, object.top, b.left, b.right, c, sh.tol));
    assert(d.top < object.top);
    assert(!all_close(sh.img, true, object.bottom, d.left, d.right, c, sh.tol));
    if g.left + 1 < object.left {
        assert(all_close(sh.img, false, g.left + 1, g.top, g.bottom, c, sh.tol));
        assert(a.left == g.left + 1);
    }
    if object.right < g.right - 1 {
        assert(all_close(sh.img, false, g.right - 1, a.top, a.bottom, c, sh.tol));
        assert(b.right == g.right - 1);
    }
    if g.top + 1 < object.top {
        assert(all_close(sh.img, true, g.top + 1, b.left, b.right, c, sh.tol));
        assert(d.top == g.top + 1);
    }
    if object.bottom < g.bottom - 1 {
        assert(all_close(sh.img, true, g.bottom - 1, d.left, d.right, c, sh.tol));
    }
}

proof fn lemma_rounds_about_object(
    sh: Shrink,
    f: Frame,
    object: Frame,
    g: Frame,
    c: Rgb,
    n: int,
)
    requires
        plain_around(sh.img, f, object, c),
        stands_out(sh.img, object, c, sh.tol),
        sh.colors == (EdgeColors { left: c, right: c, top: c, bottom: c }),
        object.left <= sh.mid_x <= object.right,
        object.top <= sh.mid_y <= object.bottom,
        g.inside(f),
        g.left < object.left,
        object.right < g.right,
        g.top < object.top,
        object.bottom < g.bottom,
        object.left - 1 - g.left <= n,
        g.right - (object.right + 1) <= n,
        object.top - 1 - g.top <= n,
        g.bottom - (object.bottom + 1) <= n,
    ensures
        sh.rounds(g, n) == (Frame {
            left: object.left - 1,
            top: object.top - 1,
            right: object.right + 1,
            bottom: object.bottom + 1,
        }),
    decreases n,
{
    lemma_round_about_object(sh, f, object, g, c);
    lemma_round(sh, g);
    if n > 0 && sh.round(g) != g {
        lemma_rounds_about_object(sh, f, object, sh.round(g), c, n - 1);
    }
}

/// A line of one color has that color as its only most common one.
proof fn lemma_mode_of_plain_line(
    img: Screenshot,
    horizontal: bool,
    fixed: int,
    from: int,
    to: int,
    c: Rgb,
    m: Rgb,
)
    requires
        from <= to,
        forall|v: int| from <= v <= to ==> #[trigger] has_color(img, horizontal, fixed, v, c),
        is_mode(img, horizontal, fixed, from, to, m),
    ensures
        m == c,
{
    assert(has_color(img, horizontal, fixed, from, c));
    let p = on_line(horizontal, fixed, from);
    assert(img.covers(p.0, p.1));
    if m != c {
        lemma_no_other_color(img, horizontal, fixed, from, to + 1, c, m);
    }
}

proof fn lemma_no_other_color(
    img: Screenshot,
    horizontal: bool,
    fixed: int,
    lo: int,
    hi: int,
    c: Rgb,
    other: Rgb,
)
    requires
        other != c,
        forall|v: int| lo <= v < hi ==> #[trigger] has_color(img, horizontal, fixed, v, c),
    ensures
        color_count(img, horizontal, fixed, lo, hi, other) == 0,
    decreases hi - lo,
{
    if lo < hi {
        assert(has_color(img, horizontal, fixed, hi - 1, c));
        lemma_no_other_color(img, horizontal, fixed, lo, hi - 1, c, other);
    }
}

/// A loose box around an object on a plain background snaps tight: whatever edge colors are
/// found, each edge ends on the last line of background before the object. The object is one
/// that contains the center of the box and is within reach of the scan cap on every side, and
/// each of its sides stands out from the background.
pub proof fn law_loose_box_snaps_to_object(
    img: Screenshot,
    f: Frame,
    object: Frame,
    c: Rgb,
    colors: EdgeColors,
    tol: u8,
)
    requires
        plain_around(img, f, object, c),
        stands_out(img, object, c, tol),
        f.left < object.left <= (f.left + f.right) / 2 <= object.right < f.right,
        f.top < object.top <= (f.top + f.bottom) / 2 <= object.bottom < f.bottom,
        object.left - 1 - f.left <= MAX_EXTENT_SCAN,
        f.right - (object.right + 1) <= MAX_EXTENT_SCAN,
        object.top - 1 - f.top <= MAX_EXTENT_SCAN,
        f.bottom - (object.bottom + 1) <= MAX_EXTENT_SCAN,
        are_edge_modes(img, f, colors),
    ensures
        shrink_of(img, f, colors, tol).rounds(f, MAX_EXTENT_SCAN as int) == (Frame {
            left: object.left - 1,
            top: object.top - 1,
            right: object.right + 1,
            bottom: object.bottom + 1,
        }),
{
    lemma_mode_of_plain_line(img, false, f.left, f.top, f.bottom, c, colors.left);
    lemma_mode_of_plain_line(img, false, f.right, f.top, f.bottom, c, colors.right);
    lemma_mode_of_plain_line(img, true, f.top, f.left, f.right, c, colors.top);
    lemma_mode_of_plain_line(img, true, f.bottom, f.left, f.right, c, colors.bottom);
    lemma_rounds_about_object(
        shrink_of(img, f, colors, tol),
        f,
        object,
        f,
        c,
        MAX_EXTENT_SCAN as int,
    );
}

} // verus!
