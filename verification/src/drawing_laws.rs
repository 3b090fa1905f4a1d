//! Laws of what is drawn and shown: what stands where in the list of things to draw, and what
//! the hints say.

use crate::display::{common_ops, mode_ops, read_out_h, read_out_v, DrawOp};
use crate::geometry::{gaps, Rect};
use crate::hints::{
    card_call_of, cursor_of, entry_args, hint_views, hints_of, message_text_of, show_args,
    string_views, CardCall, CardCallView, Hint,
};
use crate::screenshot::Rgb;
use crate::session::{Message, SessionView};
use crate::text::{decimal, law_decimal_reads_back, u32_of};
use vstd::prelude::*;

verus! {

// What is drawn

/// How many things a flag adds to the list.
pub open spec fn one_if(flag: bool) -> int {
    if flag {
        1
    } else {
        0
    }
}

/// While measuring, everything that is pinned is drawn, each thing once and in the order in which
/// it was pinned: first the horizontal guides, then the vertical ones, the sizes of the gaps
/// between them, the measure lines across and down with their ends, and the selections, of which
/// the newest alone is interactive. After that comes what follows the cursor.
pub proof fn law_everything_pinned_is_drawn(
    s: SessionView,
    wide_h: Seq<(i64, i64)>,
    wide_v: Seq<(i64, i64)>,
    pixel: Option<Rgb>,
    i: int,
)
    requires
        s.inv(),
        s.mode is Ruler,
    ensures
        ({
            let list = mode_ops(s, wide_h, wide_v, pixel) + common_ops(s);
            let vertical = s.guides_h.len() as int;
            let gaps_h = vertical + s.guides_v.len();
            let gaps_v = gaps_h + wide_h.len();
            let lines_h = gaps_v + wide_v.len();
            let lines_v = lines_h + s.measure_lines_h.len();
            let rects = lines_v + s.measure_lines_v.len();
            let live = rects + s.snapped_rects.len();
            &&& 0 <= i < s.guides_h.len() ==> list[i] == DrawOp::GuideH(s.guides_h[i])
            &&& 0 <= i < s.guides_v.len() ==> list[vertical + i] == DrawOp::GuideV(s.guides_v[i])
            &&& 0 <= i < wide_h.len() ==> list[gaps_h + i] == DrawOp::GapH(
                wide_h[i].0,
                wide_h[i].1,
            )
            &&& 0 <= i < wide_v.len() ==> list[gaps_v + i] == DrawOp::GapV(
                wide_v[i].0,
                wide_v[i].1,
            )
            &&& 0 <= i < s.measure_lines_h.len() ==> list[lines_h + i] == DrawOp::MeasureH(
                s.measure_lines_h[i].0,
                s.measure_lines_h[i].1,
                s.measure_lines_h[i].2,
            )
            &&& 0 <= i < s.measure_lines_v.len() ==> list[lines_v + i] == DrawOp::MeasureV(
                s.measure_lines_v[i].0,
                s.measure_lines_v[i].1,
                s.measure_lines_v[i].2,
            )
            &&& 0 <= i < s.snapped_rects.len() ==> list[rects + i] == (DrawOp::Selection {
                rect: s.snapped_rects[i],
                interactive: i == s.snapped_rects.len() - 1,
            })
            &&& list.len() == live + 1 + common_ops(s).len()
            &&& list.skip(live + 1) == common_ops(s)
            &&& s.dragging ==> (list[live] matches DrawOp::Drag(r) && is_box_of_drag(s, r))
            &&& !s.dragging && s.shift_held ==> list[live] == DrawOp::AlignmentLines
            &&& !s.dragging && !s.shift_held ==> list[live] == DrawOp::Extent
        }),
{
    let list = mode_ops(s, wide_h, wide_v, pixel) + common_ops(s);
    let live = s.guides_h.len() + s.guides_v.len() + wide_h.len() + wide_v.len()
        + s.measure_lines_h.len() + s.measure_lines_v.len() + s.snapped_rects.len();
    assert(list.skip(live as int + 1) =~= common_ops(s));
}

/// Whether `r` runs from where the drag started to the cursor, whichever way it went.
pub open spec fn is_box_of_drag(s: SessionView, r: Rect) -> bool {
    &&& s.start matches Some(from)
    &&& r.left <= r.right && r.top <= r.bottom
    &&& (r.left == from.x && r.right == s.cursor.x) || (r.left == s.cursor.x && r.right == from.x)
    &&& (r.top == from.y && r.bottom == s.cursor.y) || (r.top == s.cursor.y && r.bottom == from.y)
}

/// While a guide is placed, the guides of its axis are drawn with it, in order, then it, at the
/// cursor, then the sizes of the gaps. Nothing else of what is pinned is.
pub proof fn law_placed_guide_is_drawn(
    s: SessionView,
    wide_h: Seq<(i64, i64)>,
    wide_v: Seq<(i64, i64)>,
    pixel: Option<Rgb>,
    i: int,
)
    requires
        s.mode is GuideH || s.mode is GuideV,
    ensures
        ({
            let list = mode_ops(s, wide_h, wide_v, pixel);
            let across = s.mode is GuideH;
            let (guides, wide) = if across {
                (s.guides_h, wide_h)
            } else {
                (s.guides_v, wide_v)
            };
            let n = guides.len() as int;
            &&& list.len() == n + 1 + wide.len()
            &&& 0 <= i < n ==> list[i] == if across {
                DrawOp::GuideH(guides[i])
            } else {
                DrawOp::GuideV(guides[i])
            }
            &&& list[n] == if across {
                DrawOp::LiveGuideH(s.cursor.y)
            } else {
                DrawOp::LiveGuideV(s.cursor.x)
            }
            &&& 0 <= i < wide.len() ==> list[n + 1 + i] == if across {
                DrawOp::GapH(wide[i].0, wide[i].1)
            } else {
                DrawOp::GapV(wide[i].0, wide[i].1)
            }
        }),
{
}

/// While a color is picked, the loupe is drawn, and the color under the cursor if there is one.
pub proof fn law_loupe_is_drawn(
    s: SessionView,
    wide_h: Seq<(i64, i64)>,
    wide_v: Seq<(i64, i64)>,
    pixel: Option<Rgb>,
)
    requires
        s.mode is Color,
    ensures
        ({
            let list = mode_ops(s, wide_h, wide_v, pixel);
            &&& list[0] == DrawOp::Loupe
            &&& list.len() == 1 + one_if(pixel is Some)
            &&& pixel matches Some(c) ==> list[1] == DrawOp::ColorLabel(c)
        }),
{
}

/// In every mode the duck is drawn while there is one, the prompt while the hunt waits, the color
/// that was copied last, and the hint card if there are hints that the desktop does not show, in
/// this order and nothing more.
pub proof fn law_duck_prompt_note_and_card_are_drawn(s: SessionView)
    ensures
        ({
            let list = common_ops(s);
            let duck = s.game.duck is Some;
            let prompt = s.game.waiting;
            let note = s.copied is Some;
            let card = !s.legend_available && s.show_legend && s.mode !is Color;
            &&& list.len() == one_if(duck) + one_if(prompt) + one_if(note) + one_if(card)
            &&& duck ==> list[0] == DrawOp::Duck
            &&& prompt ==> list[one_if(duck)] == DrawOp::ContinuePrompt
            &&& s.copied matches Some(c) ==> list[one_if(duck) + one_if(prompt)]
                == DrawOp::Copied(c)
            &&& card ==> list.last() == DrawOp::Legend
        }),
{
}

/// The gaps are read out for all pinned guides while measuring, and with the guide being placed
/// among them, along its own axis alone, while one is placed.
pub proof fn law_gaps_are_read_out(s: SessionView, w: i64, h: i64)
    ensures
        s.mode is Ruler ==> read_out_h(s, h) == gaps(s.guides_h, h) && read_out_v(s, w) == gaps(
            s.guides_v,
            w,
        ),
        s.mode is GuideH ==> read_out_h(s, h) == gaps(s.guides_h.push(s.cursor.y), h),
        s.mode is GuideV ==> read_out_v(s, w) == gaps(s.guides_v.push(s.cursor.x), w),
        s.mode is GuideH || s.mode is Color ==> read_out_v(s, w).len() == 0,
        s.mode is GuideV || s.mode is Color ==> read_out_h(s, h).len() == 0,
{
}

// Hints

/// What the hints say in each state. Without a selection C picks a color; with one, C copies it
/// and S saves it; while a guide is placed a click places it and Escape cancels it. There are
/// none while a color is picked, nor once they are switched off.
pub proof fn law_hints_say_what_keys_do(s: SessionView)
    ensures
        hints_of(s) is Some <==> s.show_legend && s.mode !is Color,
        s.show_legend && s.mode is Ruler && s.snapped_rects.len() == 0 ==> hints_of(s) == Some(
            seq![
                ("drag"@, "select & snap"@),
                ("h/v"@, "measure line"@),
                ("shift+h/v"@, "guide"@),
                ("ctrl+z"@, "undo"@),
                ("t"@, "tolerance"@),
                ("n"@, "toggle snap"@),
                ("c"@, "color"@),
                ("l"@, "hide legend"@),
            ],
        ),
        s.show_legend && s.mode is Ruler && s.snapped_rects.len() > 0 ==> hints_of(s) == Some(
            seq![
                ("drag"@, "new selection"@),
                ("c"@, "copy"@),
                ("s"@, "save"@),
                ("ctrl+z"@, "undo"@),
                ("t"@, "tolerance"@),
                ("n"@, "toggle snap"@),
                ("l"@, "hide legend"@),
            ],
        ),
        s.show_legend && (s.mode is GuideH || s.mode is GuideV) ==> hints_of(s) == Some(
            seq![("click"@, "place guide"@), ("esc"@, "cancel"@)],
        ),
{
}

proof fn lemma_entry_args(hints: Seq<Hint>, n: int, i: int)
    requires
        0 <= n,
    ensures
        entry_args(hints, n).len() == 2 * n,
        0 <= i < n ==> entry_args(hints, n)[2 * i] == "-e"@,
        0 <= i < n ==> entry_args(hints, n)[2 * i + 1] == hints[i].0 + ":"@ + hints[i].1,
    decreases n,
{
    if n > 0 {
        lemma_entry_args(hints, n - 1, i);
    }
}

/// The desktop's card is handed every hint, each as one entry of key and action, and its corner.
/// It is called only if there is one, and hidden where there are no hints.
pub proof fn law_card_gets_every_hint(s: SessionView, i: int)
    ensures
        card_call_of(s) is Some <==> s.legend_available,
        s.legend_available && hints_of(s) is None ==> card_call_of(s) == Some(CardCallView::Hide),
        s.legend_available ==> (hints_of(s) matches Some(hints) ==> {
            &&& card_call_of(s) matches Some(CardCallView::Show(args))
            &&& args.len() == 2 * hints.len() + 2
            &&& 0 <= i < hints.len() ==> args[2 * i] == "-e"@ && args[2 * i + 1] == hints[i].0
                + ":"@ + hints[i].1
            &&& args[2 * (hints.len() as int)] == "-c"@
            &&& args[2 * (hints.len() as int) + 1] == "top-right"@
        }),
{
    if let Some(hints) = hints_of(s) {
        lemma_entry_args(hints, hints.len() as int, i);
        let entries = entry_args(hints, hints.len() as int);
        assert(show_args(hints) == entries.push("-c"@).push("top-right"@));
    }
}

/// The pointer is hidden while measuring and while a color is picked, shown as usual once there
/// is a selection to click on, and shown as that of a moved line while a guide is placed.
pub proof fn law_cursor_follows_the_state(s: SessionView)
    ensures
        s.mode is Color || (s.mode is Ruler && s.snapped_rects.len() == 0) ==> cursor_of(s)
            == "none"@,
        s.mode is Ruler && s.snapped_rects.len() > 0 ==> cursor_of(s) == "default"@,
        s.mode is GuideH ==> cursor_of(s) == "row-resize"@,
        s.mode is GuideV ==> cursor_of(s) == "col-resize"@,
{
}

/// A message ends in the number it is about, which reads back, behind words that tell its kind,
/// or in the name of the level or switch that it is about.
pub proof fn law_messages_say_what_happened(n: u32, level: usize)
    ensures
        message_text_of(Message::SnapOn) == "Snap: On"@,
        message_text_of(Message::SnapOff) == "Snap: Off"@,
        level == 0 ==> message_text_of(Message::Tolerance(level)) == "Tolerance: "@ + "Off"@,
        level == 1 ==> message_text_of(Message::Tolerance(level)) == "Tolerance: "@ + "Low"@,
        level == 2 ==> message_text_of(Message::Tolerance(level)) == "Tolerance: "@ + "Med"@,
        level == 3 ==> message_text_of(Message::Tolerance(level)) == "Tolerance: "@ + "High"@,
        message_text_of(Message::Missed(n)).take("Missed! Score: "@.len() as int)
            == "Missed! Score: "@,
        u32_of(message_text_of(Message::Missed(n)).skip("Missed! Score: "@.len() as int)) == Some(
            n,
        ),
        message_text_of(Message::Quack(n)).take("🦆 Quack! Score: "@.len() as int)
            == "🦆 Quack! Score: "@,
        u32_of(message_text_of(Message::Quack(n)).skip("🦆 Quack! Score: "@.len() as int))
            == Some(n),
        message_text_of(Message::FinalScore(n)).take("Final score: "@.len() as int)
            == "Final score: "@,
        u32_of(message_text_of(Message::FinalScore(n)).skip("Final score: "@.len() as int))
            == Some(n),
        message_text_of(Message::HighScore(n)).take("🦆 High score: "@.len() as int)
            == "🦆 High score: "@,
        message_text_of(Message::HighScore(n)).last() == '!',
        u32_of(
            message_text_of(Message::HighScore(n)).drop_last().skip(
                "🦆 High score: "@.len() as int,
            ),
        ) == Some(n),
{
    let d = decimal(n as int);
    law_decimal_reads_back(n);
    lemma_parts("Missed! Score: "@, d);
    lemma_parts("🦆 Quack! Score: "@, d);
    lemma_parts("Final score: "@, d);
    lemma_parts("🦆 High score: "@, d);
    lemma_parts("🦆 High score: "@ + d, "!"@);
    reveal_strlit("!");
    let e = message_text_of(Message::HighScore(n));
    assert(e.drop_last() =~= "🦆 High score: "@ + d);
    assert(e.take("🦆 High score: "@.len() as int) =~= e.drop_last().take(
        "🦆 High score: "@.len() as int,
    ));
}

proof fn lemma_parts(a: Seq<char>, b: Seq<char>)
    ensures
        (a + b).take(a.len() as int) == a,
        (a + b).skip(a.len() as int) == b,
{
    assert((a + b).take(a.len() as int) =~= a);
    assert((a + b).skip(a.len() as int) =~= b);
}

/// What is told of hints and arguments is what they say, each in its place.
pub proof fn law_hints_show_their_words(
    entries: Seq<(&'static str, &'static str)>,
    args: Seq<String>,
    call: CardCall,
    i: int,
)
    ensures
        hint_views(entries).len() == entries.len(),
        0 <= i < entries.len() ==> hint_views(entries)[i] == (entries[i].0@, entries[i].1@),
        string_views(args).len() == args.len(),
        0 <= i < args.len() ==> string_views(args)[i] == args[i]@,
        call matches CardCall::Show(shown) ==> call@ == CardCallView::Show(string_views(shown@)),
        call is Hide ==> call@ is Hide,
{
}

} // verus!
