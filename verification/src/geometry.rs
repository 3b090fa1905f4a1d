//! Points, rectangles and label placement on the screen.
//!
//! A coordinate is a whole number that stands for a place on an axis. It is only ever compared
//! here, so any numbering that keeps the order of the places and gives 0 to the origin will do.

use vstd::prelude::*;

verus! {

#[derive(Clone, Copy, PartialEq, Eq, Structural, Debug)]
pub struct Point {
    pub x: i64,
    pub y: i64,
}

#[derive(Clone, Copy, PartialEq, Eq, Structural, Debug)]
pub struct Rect {
    pub left: i64,
    pub top: i64,
    pub right: i64,
    pub bottom: i64,
}

impl Rect {
    /// Whether the point lies in the rectangle or on its border.
    pub open spec fn contains(self, p: Point) -> bool {
        self.left <= p.x <= self.right && self.top <= p.y <= self.bottom
    }

    /// Whether the two rectangles share more than a border.
    pub open spec fn overlaps(self, other: Rect) -> bool {
        &&& self.left < other.right
        &&& other.left < self.right
        &&& self.top < other.bottom
        &&& other.top < self.bottom
    }

    /// Whether the rectangle overlaps one of those given.
    pub open spec fn overlaps_any(self, others: Seq<Rect>) -> bool {
        exists|i: int| 0 <= i < others.len() && self.overlaps(#[trigger] others[i])
    }
}

pub open spec fn min(a: i64, b: i64) -> i64 {
    if a <= b {
        a
    } else {
        b
    }
}

pub open spec fn max(a: i64, b: i64) -> i64 {
    if a >= b {
        a
    } else {
        b
    }
}

/// The rectangle that has `a` and `b` as opposite corners.
pub open spec fn spanned(a: Point, b: Point) -> Rect {
    Rect {
        left: min(a.x, b.x),
        top: min(a.y, b.y),
        right: max(a.x, b.x),
        bottom: max(a.y, b.y),
    }
}

/// Whether `p` lies in `r` or on its border.
pub fn point_in_rect(p: Point, r: Rect) -> (b: bool)
    ensures
        b == r.contains(p),
{
    p.x >= r.left && p.x <= r.right && p.y >= r.top && p.y <= r.bottom
}

/// Whether `a` and `b` share more than a border.
pub fn rects_overlap(a: Rect, b: Rect) -> (r: bool)
    ensures
        r == a.overlaps(b),
{
    a.left < b.right && a.right > b.left && a.top < b.bottom && a.bottom > b.top
}

/// The rectangle dragged out from `start` to `end`.
pub fn drag_rect(start: Point, end: Point) -> (r: Rect)
    ensures
        r == spanned(start, end),
{
    Rect {
        left: if start.x <= end.x {
            start.x
        } else {
            end.x
        },
        top: if start.y <= end.y {
            start.y
        } else {
            end.y
        },
        right: if start.x >= end.x {
            start.x
        } else {
            end.x
        },
        bottom: if start.y >= end.y {
            start.y
        } else {
            end.y
        },
    }
}

fn overlaps_any(r: Rect, others: &Vec<Rect>) -> (b: bool)
    ensures
        b == r.overlaps_any(others@),
{
    let mut i: usize = 0;
    while i < others.len()
        invariant
            i <= others.len(),
            forall|k: int| 0 <= k < i ==> !r.overlaps(#[trigger] others@[k]),
        decreases others.len() - i,
    {
        if rects_overlap(r, others[i]) {
            return true;
        }
        i = i + 1;
    }
    false
}

/// Picks the place of a label: the first of `places` that overlaps nothing occupied, which then
/// becomes occupied. `None` if there is none.
pub fn place_label(occupied: &mut Vec<Rect>, places: &Vec<Rect>) -> (r: Option<usize>)
    ensures
        r is None <==> forall|i: int|
            0 <= i < places@.len() ==> (#[trigger] places@[i]).overlaps_any(old(occupied)@),
        r is None ==> final(occupied)@ == old(occupied)@,
        r matches Some(at) ==> {
            &&& at < places@.len()
            &&& !places@[at as int].overlaps_any(old(occupied)@)
            &&& forall|i: int| 0 <= i < at ==> (#[trigger] places@[i]).overlaps_any(old(occupied)@)
            &&& final(occupied)@ == old(occupied)@.push(places@[at as int])
        },
{
    let mut i: usize = 0;
    while i < places.len()
        invariant
            i <= places@.len(),
            occupied@ == old(occupied)@,
            forall|k: int| 0 <= k < i ==> (#[trigger] places@[k]).overlaps_any(occupied@),
        decreases places@.len() - i,
    {
        if !overlaps_any(places[i], occupied) {
            occupied.push(places[i]);
            return Some(i);
        }
        i = i + 1;
    }
    None
}

// Gaps between guides

pub open spec fn at_most() -> spec_fn(i64, i64) -> bool {
    |a: i64, b: i64| a <= b
}

/// The guides from the lowest to the highest.
pub open spec fn in_order(guides: Seq<i64>) -> Seq<i64> {
    guides.sort_by(at_most())
}

/// The gaps that `guides` leave, with the origin and `end` as the outermost bounds.
pub open spec fn gaps_between(guides: Seq<i64>, end: i64) -> Seq<(i64, i64)> {
    let bounds = seq![0i64] + guides + seq![end];
    Seq::new((guides.len() + 1) as nat, |i: int| (bounds[i], bounds[i + 1]))
}

/// The gaps read out for a set of guides: none where there is no guide.
pub open spec fn gaps(guides: Seq<i64>, end: i64) -> Seq<(i64, i64)> {
    if guides.len() == 0 {
        seq![]
    } else {
        gaps_between(in_order(guides), end)
    }
}

/// The guides from the lowest to the highest.
pub fn sorted_guides(guides: &Vec<i64>) -> (r: Vec<i64>)
    ensures
        r@ == in_order(guides@),
{
    let mut out: Vec<i64> = Vec::new();
    let mut n: usize = 0;
    assert(guides@.take(0) =~= out@);
    while n < guides.len()
        invariant
            n <= guides.len(),
            out@.len() == n,
            forall|i: int, j: int| 0 <= i <= j < n ==> out@[i] <= out@[j],
            out@.to_multiset() == guides@.take(n as int).to_multiset(),
        decreases guides.len() - n,
    {
        let g = guides[n];
        let mut at: usize = n;
        while at > 0 && out[at - 1] > g
            invariant
                at <= n == out@.len(),
                forall|i: int, j: int| 0 <= i <= j < n ==> out@[i] <= out@[j],
                forall|k: int| at <= k < n ==> g < #[trigger] out@[k],
            decreases at,
        {
            at = at - 1;
        }
        let ghost before = out@;
        out.insert(at, g);
        n = n + 1;
        proof {
            vstd::seq_lib::to_multiset_insert(before, at as int, g);
            vstd::seq_lib::to_multiset_build(guides@.take(n - 1), g);
            assert(guides@.take(n as int) =~= guides@.take(n - 1).push(g));
        }
    }
    proof {
        assert(guides@.take(n as int) =~= guides@);
        guides@.lemma_sort_by_ensures(at_most());
        vstd::seq_lib::lemma_sorted_unique(out@, in_order(guides@), at_most());
    }
    out
}

/// The gaps between consecutive guides, the origin and `end` included as bounds.
pub fn guide_gaps(guides: &Vec<i64>, end: i64) -> (r: Vec<(i64, i64)>)
    ensures
        r@ == gaps(guides@, end),
{
    let mut out: Vec<(i64, i64)> = Vec::new();
    if guides.len() == 0 {
        return out;
    }
    let ordered = sorted_guides(guides);
    let ghost bounds = seq![0i64] + ordered@ + seq![end];
    let mut last: i64 = 0;
    let mut i: usize = 0;
    while i < ordered.len()
        invariant
            i <= ordered@.len(),
            bounds == seq![0i64] + ordered@ + seq![end],
            last == bounds[i as int],
            out@ == Seq::new(i as nat, |k: int| (bounds[k], bounds[k + 1])),
        decreases ordered.len() - i,
    {
        out.push((last, ordered[i]));
        last = ordered[i];
        i = i + 1;
    }
    out.push((last, end));
    proof {
        guides@.lemma_sort_by_ensures(at_most());
        assert(out@ =~= gaps_between(ordered@, end));
    }
    out
}

/// `sizes` holds what `size` gives for every gap.
pub open spec fn sized<F: Fn(i64, i64) -> i64>(
    size: F,
    gaps: Seq<(i64, i64)>,
    sizes: Seq<i64>,
) -> bool {
    &&& sizes.len() == gaps.len()
    &&& forall|i: int|
        0 <= i < sizes.len() ==> call_ensures(size, gaps[i], #[trigger] sizes[i])
}

/// The gaps that are at least as large as `least`, in order.
pub open spec fn wide_gaps(gaps: Seq<(i64, i64)>, sizes: Seq<i64>, least: i64) -> Seq<(i64, i64)>
    decreases gaps.len(),
{
    if gaps.len() == 0 {
        seq![]
    } else {
        let before = wide_gaps(gaps.drop_last(), sizes, least);
        if sizes[gaps.len() - 1] >= least {
            before.push(gaps.last())
        } else {
            before
        }
    }
}

// Laws

/// A label that may go below everything that is occupied finds a place.
pub proof fn law_label_finds_place_below(place: Rect, occupied: Seq<Rect>)
    requires
        forall|i: int| 0 <= i < occupied.len() ==> (#[trigger] occupied[i]).bottom <= place.top,
    ensures
        !place.overlaps_any(occupied),
{
}

/// The order in which guides were placed does not show in the gaps.
pub proof fn law_gaps_ignore_the_order_of_guides(a: Seq<i64>, b: Seq<i64>, end: i64)
    requires
        a.to_multiset() == b.to_multiset(),
    ensures
        gaps(a, end) == gaps(b, end),
{
    broadcast use vstd::seq_lib::group_to_multiset_ensures;

    a.lemma_sort_by_ensures(at_most());
    b.lemma_sort_by_ensures(at_most());
    vstd::seq_lib::lemma_sorted_unique(in_order(a), in_order(b), at_most());
    assert(a.len() == a.to_multiset().len());
    assert(b.len() == b.to_multiset().len());
}

/// Of the gaps, all that are large enough are kept, and no other.
pub proof fn law_wide_gaps_are_the_large_ones(gaps: Seq<(i64, i64)>, sizes: Seq<i64>, least: i64)
    requires
        sizes.len() >= gaps.len(),
    ensures
        forall|i: int|
            0 <= i < gaps.len() && #[trigger] sizes[i] >= least ==> wide_gaps(
                gaps,
                sizes,
                least,
            ).contains(gaps[i]),
        forall|g: (i64, i64)| #[trigger]
            wide_gaps(gaps, sizes, least).contains(g) ==> exists|i: int|
                0 <= i < gaps.len() && gaps[i] == g && #[trigger] sizes[i] >= least,
    decreases gaps.len(),
{
    let wide = wide_gaps(gaps, sizes, least);
    if gaps.len() > 0 {
        let n = gaps.len() - 1;
        let before = wide_gaps(gaps.drop_last(), sizes, least);
        law_wide_gaps_are_the_large_ones(gaps.drop_last(), sizes, least);
        assert forall|i: int| 0 <= i < gaps.len() && #[trigger] sizes[i] >= least implies
            wide.contains(gaps[i]) by {
            if i < n {
                assert(gaps.drop_last()[i] == gaps[i]);
                let k = before.index_of(gaps[i]);
                assert(wide[k] == gaps[i]);
            } else {
                assert(wide.last() == gaps[i]);
            }
        }
        assert forall|g: (i64, i64)| #[trigger] wide.contains(g) implies exists|i: int|
            0 <= i < gaps.len() && gaps[i] == g && #[trigger] sizes[i] >= least by {
            if before.contains(g) {
                let i = choose|i: int|
                    0 <= i < gaps.drop_last().len() && gaps.drop_last()[i] == g
                        && #[trigger] sizes[i] >= least;
                assert(gaps[i] == g && sizes[i] >= least);
            } else {
                let k = wide.index_of(g);
                if k < before.len() {
                    assert(before[k] == g);
                }
                assert(gaps[n] == g && sizes[n] >= least);
            }
        }
    }
}

/// Overlapping goes both ways.
pub proof fn law_overlap_is_mutual(a: Rect, b: Rect)
    ensures
        a.overlaps(b) == b.overlaps(a),
{
}

/// A dragged rectangle contains both ends of the drag, and dragging the other way gives the
/// same one.
pub proof fn law_drag_is_symmetric(a: Point, b: Point)
    ensures
        spanned(a, b).contains(a),
        spanned(a, b).contains(b),
        spanned(a, b) == spanned(b, a),
{
}

/// The gaps tile the axis: they start at the origin, end at the edge of the screen, and each
/// begins where the one before it ends, at a guide.
pub proof fn law_gaps_tile_the_screen(guides: Seq<i64>, end: i64)
    requires
        guides.len() > 0,
    ensures
        gaps(guides, end).len() == guides.len() + 1,
        gaps(guides, end)[0].0 == 0,
        gaps(guides, end).last().1 == end,
        forall|i: int|
            0 <= i < guides.len() ==> {
                &&& (#[trigger] gaps(guides, end)[i]).1 == gaps(guides, end)[i + 1].0
                &&& guides.contains(gaps(guides, end)[i].1)
            },
{
    broadcast use vstd::seq_lib::group_to_multiset_ensures;

    let ordered = in_order(guides);
    guides.lemma_sort_by_ensures(at_most());
    assert(ordered.len() == ordered.to_multiset().len());
    assert(guides.len() == guides.to_multiset().len());
    assert forall|i: int| 0 <= i < guides.len() implies (#[trigger] gaps(guides, end)[i]).1 == gaps(
        guides,
        end,
    )[i + 1].0 && guides.contains(gaps(guides, end)[i].1) by {
        assert(ordered.contains(ordered[i]));
        assert(ordered.to_multiset().count(ordered[i]) > 0);
        assert(guides.to_multiset().count(ordered[i]) > 0);
    }
}

/// A point is in a rectangle if it is not beyond any side, and two rectangles overlap unless one
/// lies wholly beside, above or below the other, border to border at most.
pub proof fn law_rectangles_have_four_sides(a: Rect, b: Rect, p: Point)
    ensures
        a.contains(p) <==> !(p.x < a.left || p.x > a.right || p.y < a.top || p.y > a.bottom),
        a.overlaps(b) <==> !(a.right <= b.left || b.right <= a.left || a.bottom <= b.top || b.bottom
            <= a.top),
{
}

/// A dragged rectangle is the smallest that contains both ends of the drag.
pub proof fn law_dragged_rectangle_is_the_smallest(a: Point, b: Point, other: Rect)
    ensures
        spanned(a, b).left <= spanned(a, b).right,
        spanned(a, b).top <= spanned(a, b).bottom,
        other.left <= a.x <= other.right && other.top <= a.y <= other.bottom && other.left <= b.x
            <= other.right && other.top <= b.y <= other.bottom ==> other.left <= spanned(a, b).left
            && other.top <= spanned(a, b).top && spanned(a, b).right <= other.right && spanned(
            a,
            b,
        ).bottom <= other.bottom,
        spanned(a, b).left <= a.x <= spanned(a, b).right,
        spanned(a, b).left <= b.x <= spanned(a, b).right,
        spanned(a, b).top <= a.y <= spanned(a, b).bottom,
        spanned(a, b).top <= b.y <= spanned(a, b).bottom,
{
}

/// The bounds between the gaps are the guides, each as often as it was placed, from the lowest to
/// the highest.
pub proof fn law_gaps_lie_between_the_guides_in_order(guides: Seq<i64>, end: i64)
    requires
        guides.len() > 0,
    ensures
        gaps(guides, end).len() == guides.len() + 1,
        Seq::new(guides.len(), |i: int| gaps(guides, end)[i].1).to_multiset()
            == guides.to_multiset(),
        forall|i: int, j: int|
            0 <= i <= j < guides.len() ==> (#[trigger] gaps(guides, end)[i]).1 <= (
            #[trigger] gaps(guides, end)[j]).1,
{
    let ordered = in_order(guides);
    law_gaps_tile_the_screen(guides, end);
    guides.lemma_sort_by_ensures(at_most());
    assert(ordered.len() == guides.len()) by {
        broadcast use vstd::seq_lib::group_to_multiset_ensures;

        assert(ordered.len() == ordered.to_multiset().len());
        assert(guides.len() == guides.to_multiset().len());
    }
    assert(Seq::new(guides.len(), |i: int| gaps(guides, end)[i].1) =~= ordered);
    assert forall|i: int, j: int| 0 <= i <= j < guides.len() implies (#[trigger] gaps(
        guides,
        end,
    )[i]).1 <= (#[trigger] gaps(guides, end)[j]).1 by {
        assert(gaps(guides, end)[i].1 == ordered[i] && gaps(guides, end)[j].1 == ordered[j]);
        if i < j {
            assert(at_most()(ordered[i], ordered[j]));
        }
    }
}

/// `places` holds, in order, the numbers of the gaps that are large enough, and nothing else.
pub open spec fn are_places_of_large(sizes: Seq<i64>, n: int, least: i64, places: Seq<int>) -> bool {
    &&& forall|j: int|
        0 <= j < places.len() ==> 0 <= #[trigger] places[j] < n && sizes[places[j]] >= least
    &&& forall|j: int, k: int|
        0 <= j < k < places.len() ==> #[trigger] places[j] < #[trigger] places[k]
    &&& forall|i: int| 0 <= i < n && #[trigger] sizes[i] >= least ==> places.contains(i)
}

/// The gaps that are large enough are kept in order, each as often as it occurs.
pub proof fn law_wide_gaps_keep_their_order(gaps: Seq<(i64, i64)>, sizes: Seq<i64>, least: i64)
    requires
        sizes.len() >= gaps.len(),
    ensures
        exists|places: Seq<int>|
            {
                &&& #[trigger] are_places_of_large(sizes, gaps.len() as int, least, places)
                &&& wide_gaps(gaps, sizes, least) == Seq::new(
                    places.len(),
                    |j: int| gaps[places[j]],
                )
            },
    decreases gaps.len(),
{
    let n = gaps.len() as int;
    let wide = wide_gaps(gaps, sizes, least);
    if n == 0 {
        let places: Seq<int> = seq![];
        assert(are_places_of_large(sizes, n, least, places));
        assert(wide =~= Seq::new(places.len(), |j: int| gaps[places[j]]));
    } else {
        let rest = gaps.drop_last();
        law_wide_gaps_keep_their_order(rest, sizes, least);
        let before = choose|places: Seq<int>|
            {
                &&& #[trigger] are_places_of_large(sizes, n - 1, least, places)
                &&& wide_gaps(rest, sizes, least) == Seq::new(
                    places.len(),
                    |j: int| rest[places[j]],
                )
            };
        if sizes[n - 1] >= least {
            let places = before.push(n - 1);
            assert forall|i: int| 0 <= i < n && #[trigger] sizes[i] >= least implies
                places.contains(i) by {
                if i < n - 1 {
                    let k = before.index_of(i);
                    assert(places[k] == i);
                } else {
                    assert(places.last() == i);
                }
            }
            assert(are_places_of_large(sizes, n, least, places));
            assert(wide =~= Seq::new(places.len(), |j: int| gaps[places[j]]));
        } else {
            assert(are_places_of_large(sizes, n, least, before));
            assert(wide =~= Seq::new(before.len(), |j: int| gaps[before[j]]));
        }
    }
}

/// A gap is measured from its lower to its upper end.
pub proof fn law_sizes_are_of_the_gaps<F: Fn(i64, i64) -> i64>(
    size: F,
    gaps: Seq<(i64, i64)>,
    sizes: Seq<i64>,
    i: int,
)
    requires
        sized(size, gaps, sizes),
        0 <= i < gaps.len(),
    ensures
        sizes.len() == gaps.len(),
        call_ensures(size, (gaps[i].0, gaps[i].1), sizes[i]),
{
    let n = sizes[i];
}

/// A rectangle overlaps a collection if and only if it overlaps one of it.
pub proof fn law_overlap_with_any_is_with_one(r: Rect, others: Seq<Rect>)
    ensures
        r.overlaps_any(others) <==> exists|i: int|
            0 <= i < others.len() && !(r.right <= (#[trigger] others[i]).left || others[i].right
                <= r.left || r.bottom <= others[i].top || others[i].bottom <= r.top),
{
}

} // verus!
