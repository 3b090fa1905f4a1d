//! Auto-measurement: how far the color under a point reaches in each direction.

use crate::screenshot::{Rgb, Screenshot};
use vstd::prelude::*;

verus! {

/// The most steps that a scan takes in one direction, and the most rounds of a shrink.
pub const MAX_EXTENT_SCAN: i64 = 2000;

pub open spec fn channel_close(a: u8, b: u8, tol: u8) -> bool {
    -tol <= a - b <= tol
}

/// Whether the image has a pixel at `x`, `y` and each of its color channels is within `tol` of
/// the same channel of `reference`.
pub open spec fn close_at(img: Screenshot, x: int, y: int, reference: Rgb, tol: u8) -> bool {
    &&& img.covers(x, y)
    &&& channel_close(img.rgb(x, y).0, reference.0, tol)
    &&& channel_close(img.rgb(x, y).1, reference.1, tol)
    &&& channel_close(img.rgb(x, y).2, reference.2, tol)
}

#[derive(Clone, Copy, PartialEq, Eq, Structural, Debug)]
pub enum Direction {
    Left,
    Right,
    Up,
    Down,
}

/// The point `k` pixels from `px`, `py` in direction `dir`.
pub open spec fn ahead(px: int, py: int, dir: Direction, k: int) -> (int, int) {
    match dir {
        Direction::Left => (px - k, py),
        Direction::Right => (px + k, py),
        Direction::Up => (px, py - k),
        Direction::Down => (px, py + k),
    }
}

/// No guide lies above `lo` and at or below `hi`.
pub open spec fn clear_down_to(guides: Seq<i64>, lo: int, hi: int) -> bool {
    forall|i: int| 0 <= i < guides.len() ==> !(lo < #[trigger] guides[i] <= hi)
}

/// No guide lies at or above `lo` and below `hi`.
pub open spec fn clear_up_to(guides: Seq<i64>, lo: int, hi: int) -> bool {
    forall|i: int| 0 <= i < guides.len() ==> !(lo <= #[trigger] guides[i] < hi)
}

/// Whether no guide is crossed on the way from `px`, `py` to the point `k` pixels away. A guide
/// may be reached, and one under the starting point blocks both ways.
pub open spec fn unguarded(
    px: int,
    py: int,
    guides_x: Seq<i64>,
    guides_y: Seq<i64>,
    dir: Direction,
    k: int,
) -> bool {
    match dir {
        Direction::Left => clear_down_to(guides_x, px - k, px),
        Direction::Right => clear_up_to(guides_x, px, px + k),
        Direction::Up => clear_down_to(guides_y, py - k, py),
        Direction::Down => clear_up_to(guides_y, py, py + k),
    }
}

/// Whether the pixel `k` steps away continues the color at `px`, `py` with no guide between.
pub open spec fn continues(
    img: Screenshot,
    px: int,
    py: int,
    tol: u8,
    guides_x: Seq<i64>,
    guides_y: Seq<i64>,
    dir: Direction,
    k: int,
) -> bool {
    let (x, y) = ahead(px, py, dir, k);
    &&& close_at(img, x, y, img.rgb(px, py), tol)
    &&& unguarded(px, py, guides_x, guides_y, dir, k)
}

/// `n` is how far the color at `px`, `py` reaches in direction `dir`: every pixel up to there
/// continues it, and the next one does not unless the scan has reached its cap.
pub open spec fn reaches(
    img: Screenshot,
    px: int,
    py: int,
    tol: u8,
    guides_x: Seq<i64>,
    guides_y: Seq<i64>,
    dir: Direction,
    n: int,
) -> bool {
    &&& 0 <= n <= MAX_EXTENT_SCAN
    &&& forall|k: int|
        1 <= k <= n ==> #[trigger] continues(img, px, py, tol, guides_x, guides_y, dir, k)
    &&& n < MAX_EXTENT_SCAN ==> !continues(img, px, py, tol, guides_x, guides_y, dir, n + 1)
}

fn within(a: u8, b: u8, tol: u8) -> (r: bool)
    ensures
        r == channel_close(a, b, tol),
{
    let d: i32 = a as i32 - b as i32;
    -(tol as i32) <= d && d <= tol as i32
}

/// Whether the pixel at `x`, `y` is within `tol` of `reference` on each color channel. There is
/// no such pixel outside the image.
pub fn color_close(img: &Screenshot, x: i64, y: i64, reference: Rgb, tol: u8) -> (r: bool)
    requires
        img.inv(),
    ensures
        r == close_at(*img, x as int, y as int, reference, tol),
{
    if x < 0 || y < 0 || x >= img.width as i64 || y >= img.height as i64 {
        return false;
    }
    let (r, g, b, _) = img.rgba_at(x as u32, y as u32);
    within(r, reference.0, tol) && within(g, reference.1, tol) && within(b, reference.2, tol)
}

/// How many steps down from `p` a scan may take before it would cross a guide.
fn steps_before_guide_below(guides: &Vec<i64>, p: i64) -> (r: i64)
    requires
        0 <= p <= u32::MAX,
    ensures
        0 <= r <= MAX_EXTENT_SCAN,
        forall|k: int|
            1 <= k <= MAX_EXTENT_SCAN ==> (k <= r <==> #[trigger] clear_down_to(
                guides@,
                p - k,
                p as int,
            )),
{
    let mut limit: i64 = MAX_EXTENT_SCAN;
    let mut i: usize = 0;
    while i < guides.len()
        invariant
            i <= guides.len(),
            0 <= p <= u32::MAX,
            0 <= limit <= MAX_EXTENT_SCAN,
            limit < MAX_EXTENT_SCAN ==> exists|j: int| 0 <= j < i && guides@[j] == p - limit,
            forall|j: int| 0 <= j < i ==> !(p - limit < #[trigger] guides@[j] <= p),
        decreases guides.len() - i,
    {
        let g = guides[i];
        if g <= p && g > p - limit {
            limit = p - g;
        }
        i = i + 1;
    }
    assert forall|k: int| 1 <= k <= MAX_EXTENT_SCAN implies (k <= limit
        <==> #[trigger] clear_down_to(guides@, p - k, p as int)) by {
        if k > limit {
            let j = choose|j: int| 0 <= j < guides.len() && guides@[j] == p - limit;
            assert(p - k < guides@[j] <= p);
        }
    }
    limit
}

/// How many steps up from `p` a scan may take before it would cross a guide.
fn steps_before_guide_above(guides: &Vec<i64>, p: i64) -> (r: i64)
    requires
        0 <= p <= u32::MAX,
    ensures
        0 <= r <= MAX_EXTENT_SCAN,
        forall|k: int|
            1 <= k <= MAX_EXTENT_SCAN ==> (k <= r <==> #[trigger] clear_up_to(
                guides@,
                p as int,
                p + k,
            )),
{
    let mut limit: i64 = MAX_EXTENT_SCAN;
    let mut i: usize = 0;
    while i < guides.len()
        invariant
            i <= guides.len(),
            0 <= p <= u32::MAX,
            0 <= limit <= MAX_EXTENT_SCAN,
            limit < MAX_EXTENT_SCAN ==> exists|j: int| 0 <= j < i && guides@[j] == p + limit,
            forall|j: int| 0 <= j < i ==> !(p <= #[trigger] guides@[j] < p + limit),
        decreases guides.len() - i,
    {
        let g = guides[i];
        if g >= p && g < p + limit {
            limit = g - p;
        }
        i = i + 1;
    }
    assert forall|k: int| 1 <= k <= MAX_EXTENT_SCAN implies (k <= limit
        <==> #[trigger] clear_up_to(guides@, p as int, p + k)) by {
        if k > limit {
            let j = choose|j: int| 0 <= j < guides.len() && guides@[j] == p + limit;
            assert(p <= guides@[j] < p + k);
        }
    }
    limit
}

/// Walks from `px`, `py` in one direction while the color continues.
fn walk(
    img: &Screenshot,
    px: i64,
    py: i64,
    tol: u8,
    guides_x: &Vec<i64>,
    guides_y: &Vec<i64>,
    dir: Direction,
) -> (n: i64)
    requires
        img.inv(),
        img.covers(px as int, py as int),
    ensures
        reaches(*img, px as int, py as int, tol, guides_x@, guides_y@, dir, n as int),
{
    let (r, g, b, _) = img.rgba_at(px as u32, py as u32);
    let reference: Rgb = (r, g, b);
    let limit: i64 = match dir {
        Direction::Left => steps_before_guide_below(guides_x, px),
        Direction::Right => steps_before_guide_above(guides_x, px),
        Direction::Up => steps_before_guide_below(guides_y, py),
        Direction::Down => steps_before_guide_above(guides_y, py),
    };
    assert(forall|k: int|
        1 <= k <= MAX_EXTENT_SCAN ==> (k <= limit <==> #[trigger] unguarded(
            px as int,
            py as int,
            guides_x@,
            guides_y@,
            dir,
            k,
        )));
    let mut n: i64 = 0;
    while n < limit
        invariant
            img.inv(),
            img.covers(px as int, py as int),
            reference == img.rgb(px as int, py as int),
            0 <= n <= limit <= MAX_EXTENT_SCAN,
            forall|k: int|
                1 <= k <= MAX_EXTENT_SCAN ==> (k <= limit <==> #[trigger] unguarded(
                    px as int,
                    py as int,
                    guides_x@,
                    guides_y@,
                    dir,
                    k,
                )),
            forall|k: int|
                1 <= k <= n ==> #[trigger] continues(
                    *img,
                    px as int,
                    py as int,
                    tol,
                    guides_x@,
                    guides_y@,
                    dir,
                    k,
                ),
        decreases limit - n,
    {
        let (x, y) = match dir {
            Direction::Left => (px - (n + 1), py),
            Direction::Right => (px + (n + 1), py),
            Direction::Up => (px, py - (n + 1)),
            Direction::Down => (px, py + (n + 1)),
        };
        assert(unguarded(px as int, py as int, guides_x@, guides_y@, dir, n + 1));
        if !color_close(img, x, y, reference, tol) {
            return n;
        }
        n = n + 1;
    }
    n
}

/// Measures the color-continuous extent around `px`, `py` as (left, right, top, bottom). A
/// point outside the image has no extent. Guides bound the scan.
pub fn scan_extent(
    img: &Screenshot,
    px: i64,
    py: i64,
    tol: u8,
    guides_x: &Vec<i64>,
    guides_y: &Vec<i64>,
) -> (r: (i64, i64, i64, i64))
    requires
        img.inv(),
    ensures
        !img.covers(px as int, py as int) ==> r == (px, px, py, py),
        img.covers(px as int, py as int) ==> {
            let reach = |dir: Direction, n: int|
                reaches(*img, px as int, py as int, tol, guides_x@, guides_y@, dir, n);
            &&& reach(Direction::Left, px - r.0)
            &&& reach(Direction::Right, r.1 - px)
            &&& reach(Direction::Up, py - r.2)
            &&& reach(Direction::Down, r.3 - py)
        },
{
    if px < 0 || py < 0 || px >= img.width as i64 || py >= img.height as i64 {
        return (px, px, py, py);
    }
    let left: i64 = px - walk(img, px, py, tol, guides_x, guides_y, Direction::Left);
    let right: i64 = px + walk(img, px, py, tol, guides_x, guides_y, Direction::Right);
    let top: i64 = py - walk(img, px, py, tol, guides_x, guides_y, Direction::Up);
    let bottom: i64 = py + walk(img, px, py, tol, guides_x, guides_y, Direction::Down);
    (left, right, top, bottom)
}

// Laws

/// A color reaches one distance in each direction, and no other.
pub proof fn law_reach_is_unique(
    img: Screenshot,
    px: int,
    py: int,
    tol: u8,
    guides_x: Seq<i64>,
    guides_y: Seq<i64>,
    dir: Direction,
    n: int,
    m: int,
)
    requires
        reaches(img, px, py, tol, guides_x, guides_y, dir, n),
        reaches(img, px, py, tol, guides_x, guides_y, dir, m),
    ensures
        n == m,
{
    if n < m {
        assert(continues(img, px, py, tol, guides_x, guides_y, dir, n + 1));
    } else if m < n {
        assert(continues(img, px, py, tol, guides_x, guides_y, dir, m + 1));
    }
}

/// A measurement stays inside the image.
pub proof fn law_reach_stays_in_image(
    img: Screenshot,
    px: int,
    py: int,
    tol: u8,
    guides_x: Seq<i64>,
    guides_y: Seq<i64>,
    dir: Direction,
    n: int,
)
    requires
        img.covers(px, py),
        reaches(img, px, py, tol, guides_x, guides_y, dir, n),
    ensures
        img.covers(ahead(px, py, dir, n).0, ahead(px, py, dir, n).1),
{
    if n > 0 {
        assert(continues(img, px, py, tol, guides_x, guides_y, dir, n));
    }
}

/// A measurement never reads past a guide, whatever the colors are: it ends at the guide or
/// before it.
pub proof fn law_guides_bound_every_measurement(
    img: Screenshot,
    px: int,
    py: int,
    tol: u8,
    guides_x: Seq<i64>,
    guides_y: Seq<i64>,
    dir: Direction,
    n: int,
    i: int,
)
    requires
        reaches(img, px, py, tol, guides_x, guides_y, dir, n),
    ensures
        0 <= i < guides_x.len() && dir is Left && guides_x[i] <= px ==> px - n >= guides_x[i],
        0 <= i < guides_x.len() && dir is Right && guides_x[i] >= px ==> px + n <= guides_x[i],
        0 <= i < guides_y.len() && dir is Up && guides_y[i] <= py ==> py - n >= guides_y[i],
        0 <= i < guides_y.len() && dir is Down && guides_y[i] >= py ==> py + n <= guides_y[i],
{
    if n > 0 {
        assert(continues(img, px, py, tol, guides_x, guides_y, dir, n));
    }
}

/// Raising the tolerance never shortens a measurement.
pub proof fn law_tolerance_only_widens(
    img: Screenshot,
    px: int,
    py: int,
    low: u8,
    high: u8,
    guides_x: Seq<i64>,
    guides_y: Seq<i64>,
    dir: Direction,
    n: int,
    m: int,
)
    requires
        low <= high,
        reaches(img, px, py, low, guides_x, guides_y, dir, n),
        reaches(img, px, py, high, guides_x, guides_y, dir, m),
    ensures
        n <= m,
{
    if m < n {
        assert(continues(img, px, py, low, guides_x, guides_y, dir, m + 1));
    }
}

/// More guides never lengthen a measurement, nor does a lower tolerance, nor both together: one
/// taken at a tolerance of at most `high`, with all the guides of another taken at `high` and
/// perhaps more, in any order, is no longer than the other.
pub proof fn law_guides_only_narrow(
    img: Screenshot,
    px: int,
    py: int,
    low: u8,
    high: u8,
    fewer_x: Seq<i64>,
    fewer_y: Seq<i64>,
    more_x: Seq<i64>,
    more_y: Seq<i64>,
    dir: Direction,
    n: int,
    m: int,
)
    requires
        low <= high,
        forall|i: int| 0 <= i < fewer_x.len() ==> more_x.contains(#[trigger] fewer_x[i]),
        forall|i: int| 0 <= i < fewer_y.len() ==> more_y.contains(#[trigger] fewer_y[i]),
        reaches(img, px, py, high, fewer_x, fewer_y, dir, n),
        reaches(img, px, py, low, more_x, more_y, dir, m),
    ensures
        m <= n,
{
    if n < m {
        assert(continues(img, px, py, low, more_x, more_y, dir, n + 1));
        assert forall|i: int| 0 <= i < fewer_x.len() implies exists|j: int|
            0 <= j < more_x.len() && more_x[j] == #[trigger] fewer_x[i] by {
            assert(more_x.contains(fewer_x[i]));
        }
        assert forall|i: int| 0 <= i < fewer_y.len() implies exists|j: int|
            0 <= j < more_y.len() && more_y[j] == #[trigger] fewer_y[i] by {
            assert(more_y.contains(fewer_y[i]));
        }
        assert(unguarded(px, py, fewer_x, fewer_y, dir, n + 1));
        assert(continues(img, px, py, high, fewer_x, fewer_y, dir, n + 1));
    }
}

/// With the tolerance off, a gap reads the same from every point of it, across or down: a scan
/// from the pixel `t` further along the axis finds the same two ends, as long as no scan is
/// capped. Only a scan that starts on a guide reads otherwise, since the guide blocks it.
pub proof fn law_gap_reads_the_same_from_every_point(
    img: Screenshot,
    px: int,
    py: int,
    guides_x: Seq<i64>,
    guides_y: Seq<i64>,
    across: bool,
    t: int,
    back: int,
    forth: int,
    back_t: int,
    forth_t: int,
)
    requires
        img.covers(px, py),
        -back <= t <= forth,
        ({
            let (b, f) = if across {
                (Direction::Left, Direction::Right)
            } else {
                (Direction::Up, Direction::Down)
            };
            let (qx, qy) = ahead(px, py, f, t);
            &&& reaches(img, px, py, 0, guides_x, guides_y, b, back)
            &&& reaches(img, px, py, 0, guides_x, guides_y, f, forth)
            &&& reaches(img, qx, qy, 0, guides_x, guides_y, b, back_t)
            &&& reaches(img, qx, qy, 0, guides_x, guides_y, f, forth_t)
        }),
        t != 0 ==> forall|i: int|
            0 <= i < guides_x.len() && across ==> (#[trigger] guides_x[i]) != px + t,
        t != 0 ==> forall|i: int|
            0 <= i < guides_y.len() && !across ==> (#[trigger] guides_y[i]) != py + t,
        back < MAX_EXTENT_SCAN,
        forth < MAX_EXTENT_SCAN,
        back_t < MAX_EXTENT_SCAN,
        forth_t < MAX_EXTENT_SCAN,
    ensures
        t - back_t == -back,
        t + forth_t == forth,
{
    let (gx, gy) = (guides_x, guides_y);
    let (b, f) = if across {
        (Direction::Left, Direction::Right)
    } else {
        (Direction::Up, Direction::Down)
    };
    let (qx, qy) = ahead(px, py, f, t);
    if t == 0 {
        law_reach_is_unique(img, px, py, 0, gx, gy, b, back, back_t);
        law_reach_is_unique(img, px, py, 0, gx, gy, f, forth, forth_t);
    } else {
        // Between the two ends every pixel has the color of the starting point.
        assert forall|k: int| -back <= k <= forth implies same_color(
            img,
            px,
            py,
            #[trigger] ahead(px, py, f, k),
        ) by {
            if k < 0 {
                assert(continues(img, px, py, 0, gx, gy, b, -k));
            } else if k > 0 {
                assert(continues(img, px, py, 0, gx, gy, f, k));
            }
        }
        // And no guide lies strictly between them.
        if back > 0 {
            assert(continues(img, px, py, 0, gx, gy, b, back));
        }
        if forth > 0 {
            assert(continues(img, px, py, 0, gx, gy, f, forth));
        }
        assert(same_color(img, px, py, ahead(px, py, f, t)));
        if t - back_t < -back {
            assert(continues(img, qx, qy, 0, gx, gy, b, t + back + 1));
            assert(unguarded(px, py, gx, gy, b, back + 1));
            assert(continues(img, px, py, 0, gx, gy, b, back + 1));
        } else if t - back_t > -back {
            assert(same_color(img, px, py, ahead(px, py, f, t - back_t - 1)));
            assert(unguarded(qx, qy, gx, gy, b, back_t + 1));
            assert(continues(img, qx, qy, 0, gx, gy, b, back_t + 1));
        }
        if t + forth_t > forth {
            assert(continues(img, qx, qy, 0, gx, gy, f, forth + 1 - t));
            assert(unguarded(px, py, gx, gy, f, forth + 1));
            assert(continues(img, px, py, 0, gx, gy, f, forth + 1));
        } else if t + forth_t < forth {
            assert(same_color(img, px, py, ahead(px, py, f, t + forth_t + 1)));
            assert(unguarded(qx, qy, gx, gy, f, forth_t + 1));
            assert(continues(img, qx, qy, 0, gx, gy, f, forth_t + 1));
        }
    }
}

spec fn same_color(img: Screenshot, px: int, py: int, q: (int, int)) -> bool {
    img.covers(q.0, q.1) && img.rgb(q.0, q.1) == img.rgb(px, py)
}

} // verus!
