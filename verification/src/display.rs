//! What is drawn over the screenshot in each state, and in which order.

use crate::geometry::{drag_rect, gaps, guide_gaps, sized, spanned, wide_gaps, Rect};
use crate::hints::{hints_of, legend_entries};
use crate::screenshot::Rgb;
use crate::session::{Mode, Session, SessionView};
use vstd::prelude::*;

verus! {

/// One thing to draw.
#[derive(Clone, Copy, PartialEq, Eq, Debug)]
pub enum DrawOp {
    /// A pinned guide at this height, or at this column.
    GuideH(i64),
    GuideV(i64),
    /// The size of a gap between two heights, or two columns.
    GapH(i64, i64),
    GapV(i64, i64),
    /// A pinned measure line: height, left end, right end.
    MeasureH(i64, i64, i64),
    /// A pinned measure line: column, top end, bottom end.
    MeasureV(i64, i64, i64),
    /// A selection. Only an interactive one has a button to open it in the editor.
    Selection { rect: Rect, interactive: bool },
    /// The selection being dragged out.
    Drag(Rect),
    /// A crosshair over the whole screen.
    AlignmentLines,
    /// The measurement around the cursor.
    Extent,
    /// The guide being placed.
    LiveGuideH(i64),
    LiveGuideV(i64),
    Loupe,
    /// The color under the cursor.
    ColorLabel(Rgb),
    Duck,
    ContinuePrompt,
    /// The note that a color was copied.
    Copied(Rgb),
    /// The hint card, where the desktop does not show it.
    Legend,
}

pub open spec fn guides_h_ops(guides: Seq<i64>) -> Seq<DrawOp> {
    guides.map_values(|y: i64| DrawOp::GuideH(y))
}

pub open spec fn guides_v_ops(guides: Seq<i64>) -> Seq<DrawOp> {
    guides.map_values(|x: i64| DrawOp::GuideV(x))
}

pub open spec fn gaps_h_ops(found: Seq<(i64, i64)>) -> Seq<DrawOp> {
    found.map_values(|g: (i64, i64)| DrawOp::GapH(g.0, g.1))
}

pub open spec fn gaps_v_ops(found: Seq<(i64, i64)>) -> Seq<DrawOp> {
    found.map_values(|g: (i64, i64)| DrawOp::GapV(g.0, g.1))
}

pub open spec fn measures_h_ops(lines: Seq<(i64, i64, i64)>) -> Seq<DrawOp> {
    lines.map_values(|l: (i64, i64, i64)| DrawOp::MeasureH(l.0, l.1, l.2))
}

pub open spec fn measures_v_ops(lines: Seq<(i64, i64, i64)>) -> Seq<DrawOp> {
    lines.map_values(|l: (i64, i64, i64)| DrawOp::MeasureV(l.0, l.1, l.2))
}

/// The selections, of which the last is interactive.
pub open spec fn selection_ops(rects: Seq<Rect>) -> Seq<DrawOp> {
    Seq::new(
        rects.len(),
        |i: int| DrawOp::Selection { rect: rects[i], interactive: i + 1 == rects.len() },
    )
}

/// What follows the cursor while measuring: the selection being dragged out, else the
/// alignment lines while Shift is held, else the measurement.
pub open spec fn live_ops(s: SessionView) -> Seq<DrawOp> {
    if s.dragging {
        match s.start {
            Some(start) => seq![DrawOp::Drag(spanned(start, s.cursor))],
            None => seq![],
        }
    } else if s.shift_held {
        seq![DrawOp::AlignmentLines]
    } else {
        seq![DrawOp::Extent]
    }
}

/// The gaps between horizontal guides, on a screen that ends at `h`: those that are pinned, and
/// the one being placed. They are not looked at in other modes.
pub open spec fn read_out_h(s: SessionView, h: i64) -> Seq<(i64, i64)> {
    match s.mode {
        Mode::Ruler => gaps(s.guides_h, h),
        Mode::GuideH => gaps(s.guides_h.push(s.cursor.y), h),
        _ => seq![],
    }
}

/// The gaps between vertical guides, on a screen that ends at `w`.
pub open spec fn read_out_v(s: SessionView, w: i64) -> Seq<(i64, i64)> {
    match s.mode {
        Mode::Ruler => gaps(s.guides_v, w),
        Mode::GuideV => gaps(s.guides_v.push(s.cursor.x), w),
        _ => seq![],
    }
}

/// What is drawn for the mode, with these gaps large enough to be read out. `pixel` is the
/// color under the cursor.
pub open spec fn mode_ops(
    s: SessionView,
    wide_h: Seq<(i64, i64)>,
    wide_v: Seq<(i64, i64)>,
    pixel: Option<Rgb>,
) -> Seq<DrawOp> {
    match s.mode {
        Mode::Ruler => guides_h_ops(s.guides_h) + guides_v_ops(s.guides_v) + gaps_h_ops(wide_h)
            + gaps_v_ops(wide_v) + measures_h_ops(s.measure_lines_h) + measures_v_ops(
            s.measure_lines_v,
        ) + selection_ops(s.snapped_rects) + live_ops(s),
        Mode::GuideH => guides_h_ops(s.guides_h) + seq![DrawOp::LiveGuideH(s.cursor.y)]
            + gaps_h_ops(wide_h),
        Mode::GuideV => guides_v_ops(s.guides_v) + seq![DrawOp::LiveGuideV(s.cursor.x)]
            + gaps_v_ops(wide_v),
        Mode::Color => match pixel {
            Some(c) => seq![DrawOp::Loupe, DrawOp::ColorLabel(c)],
            None => seq![DrawOp::Loupe],
        },
    }
}

/// What is drawn in every mode: the duck, the prompt after a miss, the last copied color and
/// the hint card.
pub open spec fn common_ops(s: SessionView) -> Seq<DrawOp> {
    (if s.game.duck is Some {
        seq![DrawOp::Duck]
    } else {
        seq![]
    }) + (if s.game.waiting {
        seq![DrawOp::ContinuePrompt]
    } else {
        seq![]
    }) + (match s.copied {
        Some(c) => seq![DrawOp::Copied(c)],
        None => seq![],
    }) + (if !s.legend_available && hints_of(s) is Some {
        seq![DrawOp::Legend]
    } else {
        seq![]
    })
}

fn push_guides(out: &mut Vec<DrawOp>, guides: &Vec<i64>, horizontal: bool)
    ensures
        final(out)@ == old(out)@ + (if horizontal {
            guides_h_ops(guides@)
        } else {
            guides_v_ops(guides@)
        }),
{
    let ghost ops = if horizontal {
        guides_h_ops(guides@)
    } else {
        guides_v_ops(guides@)
    };
    let mut i: usize = 0;
    while i < guides.len()
        invariant
            i <= guides@.len(),
            ops == if horizontal {
                guides_h_ops(guides@)
            } else {
                guides_v_ops(guides@)
            },
            out@ =~= old(out)@ + ops.take(i as int),
        decreases guides@.len() - i,
    {
        if horizontal {
            out.push(DrawOp::GuideH(guides[i]));
        } else {
            out.push(DrawOp::GuideV(guides[i]));
        }
        i = i + 1;
    }
    assert(ops.take(i as int) =~= ops);
}

/// The gaps of two lists that are at least as large as `least`.
fn keep_wide<F: Fn(i64, i64) -> i64>(
    gaps_h: &Vec<(i64, i64)>,
    gaps_v: &Vec<(i64, i64)>,
    size: F,
    least: i64,
) -> (r: (Vec<(i64, i64)>, Vec<(i64, i64)>))
    requires
        forall|a: i64, b: i64| call_requires(size, (a, b)),
    ensures
        exists|sizes_h: Seq<i64>, sizes_v: Seq<i64>|
            #![trigger sized(size, gaps_h@, sizes_h), sized(size, gaps_v@, sizes_v)]
            {
                &&& sized(size, gaps_h@, sizes_h)
                &&& sized(size, gaps_v@, sizes_v)
                &&& r.0@ == wide_gaps(gaps_h@, sizes_h, least)
                &&& r.1@ == wide_gaps(gaps_v@, sizes_v, least)
            },
{
    let mut wide_h: Vec<(i64, i64)> = Vec::new();
    let mut wide_v: Vec<(i64, i64)> = Vec::new();
    let ghost mut sizes_h: Seq<i64> = seq![];
    let ghost mut sizes_v: Seq<i64> = seq![];
    let mut i: usize = 0;
    while i < gaps_h.len()
        invariant
            i <= gaps_h@.len(),
            forall|a: i64, b: i64| call_requires(size, (a, b)),
            sized(size, gaps_h@.take(i as int), sizes_h),
            wide_h@ == wide_gaps(gaps_h@.take(i as int), sizes_h, least),
        decreases gaps_h@.len() - i,
    {
        let gap = gaps_h[i];
        let n: i64 = size(gap.0, gap.1);
        if n >= least {
            wide_h.push(gap);
        }
        i = i + 1;
        proof {
            let earlier = gaps_h@.take(i - 1);
            assert(gaps_h@.take(i as int).drop_last() =~= earlier);
            lemma_wide_prefix(earlier, sizes_h, sizes_h.push(n), least);
            sizes_h = sizes_h.push(n);
            assert forall|k: int| 0 <= k < sizes_h.len() implies call_ensures(
                size,
                gaps_h@.take(i as int)[k],
                #[trigger] sizes_h[k],
            ) by {
                if k < i - 1 {
                    assert(earlier[k] == gaps_h@.take(i as int)[k]);
                }
            }
        }
    }
    assert(gaps_h@.take(i as int) =~= gaps_h@);
    let mut j: usize = 0;
    while j < gaps_v.len()
        invariant
            j <= gaps_v@.len(),
            forall|a: i64, b: i64| call_requires(size, (a, b)),
            sized(size, gaps_v@.take(j as int), sizes_v),
            wide_v@ == wide_gaps(gaps_v@.take(j as int), sizes_v, least),
        decreases gaps_v@.len() - j,
    {
        let gap = gaps_v[j];
        let n: i64 = size(gap.0, gap.1);
        if n >= least {
            wide_v.push(gap);
        }
        j = j + 1;
        proof {
            let earlier = gaps_v@.take(j - 1);
            assert(gaps_v@.take(j as int).drop_last() =~= earlier);
            lemma_wide_prefix(earlier, sizes_v, sizes_v.push(n), least);
            sizes_v = sizes_v.push(n);
            assert forall|k: int| 0 <= k < sizes_v.len() implies call_ensures(
                size,
                gaps_v@.take(j as int)[k],
                #[trigger] sizes_v[k],
            ) by {
                if k < j - 1 {
                    assert(earlier[k] == gaps_v@.take(j as int)[k]);
                }
            }
        }
    }
    assert(gaps_v@.take(j as int) =~= gaps_v@);
    (wide_h, wide_v)
}

/// Only the sizes of the gaps themselves matter.
proof fn lemma_wide_prefix(gaps: Seq<(i64, i64)>, a: Seq<i64>, b: Seq<i64>, least: i64)
    requires
        forall|i: int| 0 <= i < gaps.len() ==> a[i] == #[trigger] b[i],
    ensures
        wide_gaps(gaps, a, least) == wide_gaps(gaps, b, least),
    decreases gaps.len(),
{
    if gaps.len() > 0 {
        lemma_wide_prefix(gaps.drop_last(), a, b, least);
        assert(a[gaps.len() - 1] == b[gaps.len() - 1]);
    }
}

fn push_gaps(out: &mut Vec<DrawOp>, wide: &Vec<(i64, i64)>, horizontal: bool)
    ensures
        final(out)@ == old(out)@ + (if horizontal {
            gaps_h_ops(wide@)
        } else {
            gaps_v_ops(wide@)
        }),
{
    let ghost ops = if horizontal {
        gaps_h_ops(wide@)
    } else {
        gaps_v_ops(wide@)
    };
    let mut i: usize = 0;
    while i < wide.len()
        invariant
            i <= wide@.len(),
            ops == if horizontal {
                gaps_h_ops(wide@)
            } else {
                gaps_v_ops(wide@)
            },
            out@ =~= old(out)@ + ops.take(i as int),
        decreases wide@.len() - i,
    {
        let (lo, hi) = wide[i];
        if horizontal {
            out.push(DrawOp::GapH(lo, hi));
        } else {
            out.push(DrawOp::GapV(lo, hi));
        }
        i = i + 1;
    }
    assert(ops.take(i as int) =~= ops);
}

fn gaps_to_read_h(s: &Session, h: i64) -> (r: Vec<(i64, i64)>)
    ensures
        r@ == read_out_h(s@, h),
{
    match s.mode {
        Mode::Ruler => guide_gaps(&s.guides_h, h),
        Mode::GuideH => {
            let mut all: Vec<i64> = s.guides_h.clone();
            all.push(s.cursor.y);
            assert(all@ =~= s.guides_h@.push(s.cursor.y));
            guide_gaps(&all, h)
        },
        _ => Vec::new(),
    }
}

fn gaps_to_read_v(s: &Session, w: i64) -> (r: Vec<(i64, i64)>)
    ensures
        r@ == read_out_v(s@, w),
{
    match s.mode {
        Mode::Ruler => guide_gaps(&s.guides_v, w),
        Mode::GuideV => {
            let mut all: Vec<i64> = s.guides_v.clone();
            all.push(s.cursor.x);
            assert(all@ =~= s.guides_v@.push(s.cursor.x));
            guide_gaps(&all, w)
        },
        _ => Vec::new(),
    }
}

fn push_measures(out: &mut Vec<DrawOp>, lines: &Vec<(i64, i64, i64)>, horizontal: bool)
    ensures
        final(out)@ == old(out)@ + (if horizontal {
            measures_h_ops(lines@)
        } else {
            measures_v_ops(lines@)
        }),
{
    let ghost ops = if horizontal {
        measures_h_ops(lines@)
    } else {
        measures_v_ops(lines@)
    };
    let mut i: usize = 0;
    while i < lines.len()
        invariant
            i <= lines@.len(),
            ops == if horizontal {
                measures_h_ops(lines@)
            } else {
                measures_v_ops(lines@)
            },
            out@ =~= old(out)@ + ops.take(i as int),
        decreases lines@.len() - i,
    {
        let (at, from, to) = lines[i];
        if horizontal {
            out.push(DrawOp::MeasureH(at, from, to));
        } else {
            out.push(DrawOp::MeasureV(at, from, to));
        }
        i = i + 1;
    }
    assert(ops.take(i as int) =~= ops);
}

fn push_selections(out: &mut Vec<DrawOp>, rects: &Vec<Rect>)
    ensures
        final(out)@ == old(out)@ + selection_ops(rects@),
{
    let ghost ops = selection_ops(rects@);
    let mut i: usize = 0;
    while i < rects.len()
        invariant
            i <= rects@.len(),
            ops == selection_ops(rects@),
            out@ =~= old(out)@ + ops.take(i as int),
        decreases rects@.len() - i,
    {
        out.push(DrawOp::Selection { rect: rects[i], interactive: i + 1 == rects.len() });
        i = i + 1;
    }
    assert(ops.take(i as int) =~= ops);
}

fn push_live(out: &mut Vec<DrawOp>, s: &Session)
    ensures
        final(out)@ == old(out)@ + live_ops(s@),
{
    if s.dragging {
        if let Some(start) = s.start {
            out.push(DrawOp::Drag(drag_rect(start, s.cursor)));
        }
    } else if s.shift_held {
        out.push(DrawOp::AlignmentLines);
    } else {
        out.push(DrawOp::Extent);
    }
    assert(out@ =~= old(out)@ + live_ops(s@));
}

fn push_common(out: &mut Vec<DrawOp>, s: &Session)
    ensures
        final(out)@ == old(out)@ + common_ops(s@),
{
    if s.game.duck.is_some() {
        out.push(DrawOp::Duck);
    }
    if s.game.waiting {
        out.push(DrawOp::ContinuePrompt);
    }
    if let Some(c) = s.copied {
        out.push(DrawOp::Copied(c));
    }
    if !s.legend_available {
        if legend_entries(s).is_some() {
            out.push(DrawOp::Legend);
        }
    }
    assert(out@ =~= old(out)@ + common_ops(s@));
}

/// Lists what to draw, in order, on a screen that ends at `w`, `h`. `pixel` is the color under
/// the cursor, if it is on the screen. A gap between guides is read out if its `size` is at least
/// `least`, in any numbering of sizes that keeps their order.
pub fn draw_list<F: Fn(i64, i64) -> i64>(
    s: &Session,
    w: i64,
    h: i64,
    pixel: Option<Rgb>,
    size: F,
    least: i64,
) -> (r: Vec<DrawOp>)
    requires
        forall|a: i64, b: i64| call_requires(size, (a, b)),
    ensures
        exists|sizes_h: Seq<i64>, sizes_v: Seq<i64>|
            #![trigger
                sized(size, read_out_h(s@, h), sizes_h),
                sized(size, read_out_v(s@, w), sizes_v)
            ]
            {
                &&& sized(size, read_out_h(s@, h), sizes_h)
                &&& sized(size, read_out_v(s@, w), sizes_v)
                &&& r@ == mode_ops(
                    s@,
                    wide_gaps(read_out_h(s@, h), sizes_h, least),
                    wide_gaps(read_out_v(s@, w), sizes_v, least),
                    pixel,
                ) + common_ops(s@)
            },
{
    let gaps_h = gaps_to_read_h(s, h);
    let gaps_v = gaps_to_read_v(s, w);
    let (wide_h, wide_v) = keep_wide(&gaps_h, &gaps_v, size, least);
    let mut out: Vec<DrawOp> = Vec::new();
    match s.mode {
        Mode::Ruler => {
            push_guides(&mut out, &s.guides_h, true);
            push_guides(&mut out, &s.guides_v, false);
            push_gaps(&mut out, &wide_h, true);
            push_gaps(&mut out, &wide_v, false);
            push_measures(&mut out, &s.measure_lines_h, true);
            push_measures(&mut out, &s.measure_lines_v, false);
            push_selections(&mut out, &s.snapped_rects);
            push_live(&mut out, s);
        },
        Mode::GuideH => {
            push_guides(&mut out, &s.guides_h, true);
            out.push(DrawOp::LiveGuideH(s.cursor.y));
            push_gaps(&mut out, &wide_h, true);
        },
        Mode::GuideV => {
            push_guides(&mut out, &s.guides_v, false);
            out.push(DrawOp::LiveGuideV(s.cursor.x));
            push_gaps(&mut out, &wide_v, false);
        },
        Mode::Color => {
            out.push(DrawOp::Loupe);
            if let Some(c) = pixel {
                out.push(DrawOp::ColorLabel(c));
            }
        },
    }
    assert(out@ =~= mode_ops(s@, wide_h@, wide_v@, pixel));
    push_common(&mut out, s);
    out
}

} // verus!
