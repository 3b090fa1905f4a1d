//! Laws of the session: what sequences of inputs do.

use crate::geometry::{spanned, Point, Rect};
use crate::hints::{cursor_of, hints_of};
use crate::screenshot::Rgb;
use crate::session::{
    lemma_without_selections, occurrences, Effect, Key, Mode, SessionView, UndoItem,
    without_selections, TOLERANCE_LEVELS,
};
use vstd::prelude::*;

verus! {

// Undo

/// Undo takes back the last thing pinned, whatever kind it is, and nothing else.
pub proof fn law_undo_takes_back_the_last_pin(s: SessionView, rect: Rect, from: i64, to: i64)
    ensures
        s.with_selection(rect).undone() == s,
        s.with_guide_h().undone() == s,
        s.with_guide_v().undone() == s,
        s.with_measure_h(from, to).undone() == s,
        s.with_measure_v(from, to).undone() == s,
{
    let (a, b, c, d, e) = (
        s.with_selection(rect),
        s.with_guide_h(),
        s.with_guide_v(),
        s.with_measure_h(from, to),
        s.with_measure_v(from, to),
    );
    assert(a.undone().snapped_rects =~= s.snapped_rects && a.undone().undo_stack =~= s.undo_stack);
    assert(b.undone().guides_h =~= s.guides_h && b.undone().undo_stack =~= s.undo_stack);
    assert(c.undone().guides_v =~= s.guides_v && c.undone().undo_stack =~= s.undo_stack);
    assert(d.undone().measure_lines_h =~= s.measure_lines_h && d.undone().undo_stack
        =~= s.undo_stack);
    assert(e.undone().measure_lines_v =~= s.measure_lines_v && e.undone().undo_stack
        =~= s.undo_stack);
}

/// How many things are pinned.
pub open spec fn pinned(s: SessionView) -> nat {
    s.snapped_rects.len() + s.guides_h.len() + s.guides_v.len() + s.measure_lines_h.len()
        + s.measure_lines_v.len()
}

/// Undo takes exactly one thing off the screen, as long as anything is pinned.
pub proof fn law_undo_removes_one_thing(s: SessionView)
    requires
        s.inv(),
        pinned(s) > 0,
    ensures
        pinned(s.undone()) == pinned(s) - 1,
        s.undo_stack.len() == pinned(s),
        s.undone().undo_stack == s.undo_stack.drop_last(),
{
    lemma_stack_counts(s.undo_stack);
    lemma_occurrences_nonneg(s.undo_stack.drop_last(), s.undo_stack.last());
}

/// The stack is as long as its kinds are many, taken together.
proof fn lemma_stack_counts(s: Seq<UndoItem>)
    ensures
        s.len() == occurrences(s, UndoItem::Rect) + occurrences(s, UndoItem::GuideH) + occurrences(
            s,
            UndoItem::GuideV,
        ) + occurrences(s, UndoItem::MeasureH) + occurrences(s, UndoItem::MeasureV),
    decreases s.len(),
{
    if s.len() > 0 {
        lemma_stack_counts(s.drop_last());
    }
}

/// C while a guide is placed takes the selections off and leaves the rest, on the screen and on
/// the stack. So the next undo takes back something that is still there.
pub proof fn law_undo_after_giving_up_a_guide(s: SessionView, shift: bool, ctrl: bool, now: u64)
    requires
        s.inv(),
        s.placing_guide(),
    ensures
        ({
            let left = s.key(Key::C, shift, ctrl, now).next;
            &&& left.inv()
            &&& left.mode is Ruler
            &&& left.snapped_rects.len() == 0
            &&& left.guides_h == s.guides_h
            &&& left.guides_v == s.guides_v
            &&& left.measure_lines_h == s.measure_lines_h
            &&& left.measure_lines_v == s.measure_lines_v
            &&& left.undo_stack == without_selections(s.undo_stack)
            &&& pinned(left) > 0 ==> pinned(left.undone()) == pinned(left) - 1
        }),
{
    law_keys_keep_the_invariant(s, Key::C, shift, ctrl, now);
    let left = s.key(Key::C, shift, ctrl, now).next;
    if pinned(left) > 0 {
        law_undo_removes_one_thing(left);
    }
}

/// The state after `n` times undo.
pub open spec fn undone_times(s: SessionView, n: int) -> SessionView
    decreases n,
{
    if n <= 0 {
        s
    } else {
        undone_times(s.undone(), n - 1)
    }
}

proof fn lemma_undone_inv(s: SessionView)
    requires
        s.inv(),
    ensures
        s.undone().inv(),
{
    if s.undo_stack.len() > 0 {
        lemma_occurrences_nonneg(s.undo_stack.drop_last(), s.undo_stack.last());
    }
}

proof fn lemma_occurrences_nonneg(s: Seq<UndoItem>, kind: UndoItem)
    ensures
        occurrences(s, kind) >= 0,
    decreases s.len(),
{
    if s.len() > 0 {
        lemma_occurrences_nonneg(s.drop_last(), kind);
    }
}

/// As many undos as there are entries on the stack take everything off the screen.
pub proof fn law_undoing_everything_leaves_nothing_pinned(s: SessionView)
    requires
        s.inv(),
    ensures
        ({
            let e = undone_times(s, s.undo_stack.len() as int);
            &&& e.inv()
            &&& e.undo_stack.len() == 0
            &&& e.snapped_rects.len() == 0
            &&& e.guides_h.len() == 0
            &&& e.guides_v.len() == 0
            &&& e.measure_lines_h.len() == 0
            &&& e.measure_lines_v.len() == 0
        }),
    decreases s.undo_stack.len(),
{
    if s.undo_stack.len() > 0 {
        lemma_undone_inv(s);
        law_undoing_everything_leaves_nothing_pinned(s.undone());
    }
}

// Every input keeps the invariant

/// A key leads from a consistent state to a consistent state.
pub proof fn law_keys_keep_the_invariant(
    s: SessionView,
    key: Key,
    shift: bool,
    ctrl: bool,
    now: u64,
)
    requires
        s.inv(),
    ensures
        s.key(key, shift, ctrl, now).next.inv(),
{
    lemma_undone_inv(s);
    lemma_without_selections(s.undo_stack);
}

// Hints and cursor

/// The hint card never goes stale on a key: a key that changes the hints asks for them to be
/// shown anew.
pub proof fn law_keys_refresh_changed_hints(
    s: SessionView,
    key: Key,
    shift: bool,
    ctrl: bool,
    now: u64,
)
    ensures
        ({
            let step = s.key(key, shift, ctrl, now);
            hints_of(step.next) != hints_of(s) ==> step.effects.contains(Effect::RefreshLegend)
        }),
{
    let step = s.key(key, shift, ctrl, now);
    if hints_of(step.next) != hints_of(s) {
        if key is L {
            assert(step.effects[0] == Effect::RefreshLegend);
        } else {
            assert(step.effects[1] == Effect::RefreshLegend);
        }
    }
}

/// The mouse cursor never goes stale on a key: a key that changes it asks for it to be shown
/// anew.
pub proof fn law_keys_sync_changed_cursor(
    s: SessionView,
    key: Key,
    shift: bool,
    ctrl: bool,
    now: u64,
)
    ensures
        ({
            let step = s.key(key, shift, ctrl, now);
            cursor_of(step.next) != cursor_of(s) ==> step.effects.contains(Effect::SyncCursor)
        }),
{
    let step = s.key(key, shift, ctrl, now);
    if cursor_of(step.next) != cursor_of(s) {
        assert(step.effects[0] == Effect::SyncCursor);
    }
}

/// Neither the hint card nor the mouse cursor goes stale on a click.
pub proof fn law_clicks_refresh_hints_and_cursor(
    s: SessionView,
    now: u64,
    hit: bool,
    pixel: Option<Rgb>,
)
    ensures
        ({
            let (next, effects) = s.press(now, hit, pixel);
            &&& hints_of(next) != hints_of(s) ==> effects.contains(Effect::RefreshLegend)
            &&& cursor_of(next) != cursor_of(s) ==> effects.contains(Effect::SyncCursor)
        }),
{
    let (next, effects) = s.press(now, hit, pixel);
    let (clicked, own) = s.click(pixel);
    if hints_of(next) != hints_of(s) || cursor_of(next) != cursor_of(s) {
        let k = effects.len() - 2;
        assert(effects[k] == Effect::SyncCursor);
        assert(effects[k - 1] == Effect::RefreshLegend);
    }
}

/// Neither the hint card nor the mouse cursor goes stale on a release, and it always shows the
/// cursor and the screen anew.
pub proof fn law_releases_refresh_hints_and_cursor(s: SessionView, selected: Option<Rect>)
    ensures
        ({
            let next = s.released().settled(selected);
            let effects = SessionView::release_effects(selected);
            &&& hints_of(next) != hints_of(s) ==> effects.contains(Effect::RefreshLegend)
            &&& effects.len() >= 2
            &&& effects[effects.len() - 2] == Effect::SyncCursor
            &&& effects.last() == Effect::Redraw
        }),
{
    let effects = SessionView::release_effects(selected);
    if selected is Some {
        assert(effects[0] == Effect::RefreshLegend);
    }
}

// Keys that undo themselves

/// Switching snapping, or the hints, twice changes nothing.
pub proof fn law_switches_switch_back(s: SessionView, shift: bool, ctrl: bool, now: u64)
    ensures
        s.key(Key::N, shift, ctrl, now).next.key(Key::N, shift, ctrl, now).next == s,
        s.key(Key::L, shift, ctrl, now).next.key(Key::L, shift, ctrl, now).next == s,
{
}

/// Going through all tolerance levels comes back to the first; one step down and one up come
/// back too, except at the ends, where a step past the end changes nothing.
pub proof fn law_tolerance_levels_cycle(s: SessionView, shift: bool, ctrl: bool, now: u64)
    requires
        s.inv(),
    ensures
        s.key(Key::T, shift, ctrl, now).next.key(Key::T, shift, ctrl, now).next.key(
            Key::T,
            shift,
            ctrl,
            now,
        ).next.key(Key::T, shift, ctrl, now).next == s,
        s.tolerance_level > 0 ==> s.key(Key::Minus, shift, ctrl, now).next.key(
            Key::Equal,
            shift,
            ctrl,
            now,
        ).next == s,
        s.tolerance_level < TOLERANCE_LEVELS - 1 ==> s.key(Key::Equal, shift, ctrl, now).next.key(
            Key::Minus,
            shift,
            ctrl,
            now,
        ).next == s,
        s.tolerance_level == 0 ==> s.key(Key::Minus, shift, ctrl, now).next == s,
        s.tolerance_level == TOLERANCE_LEVELS - 1 ==> s.key(Key::Equal, shift, ctrl, now).next == s,
{
}

// Guides

/// Placing a guide can be cancelled: Shift with H or V and then Escape change nothing.
pub proof fn law_escape_cancels_guide(s: SessionView, key: Key, ctrl: bool, now: u64)
    requires
        s.mode is Ruler,
        key is H || key is V,
    ensures
        ({
            let placing = s.key(key, true, ctrl, now).next;
            placing.placing_guide() && placing.key(Key::Escape, false, ctrl, now).next == s
        }),
{
}

/// Placing switches straight from one axis to the other.
pub proof fn law_guide_axes_switch_directly(s: SessionView, ctrl: bool, now: u64)
    requires
        s.mode is Ruler || s.placing_guide(),
    ensures
        s.key(Key::H, true, ctrl, now).next == s.with_mode(Mode::GuideH),
        s.key(Key::V, true, ctrl, now).next == s.with_mode(Mode::GuideV),
        s.with_mode(Mode::GuideH).key(Key::V, true, ctrl, now).next == s.with_mode(Mode::GuideV),
        s.with_mode(Mode::GuideV).key(Key::H, true, ctrl, now).next == s.with_mode(Mode::GuideH),
{
}

/// A click pins the guide exactly at the cursor and ends placing.
pub proof fn law_click_pins_guide_at_cursor(s: SessionView, now: u64, pixel: Option<Rgb>)
    requires
        !s.game.waiting,
        s.placing_guide(),
    ensures
        ({
            let next = s.press(now, false, pixel).0;
            &&& next.mode is Ruler
            &&& s.mode is GuideH ==> next.guides_h == s.guides_h.push(s.cursor.y)
                && next.guides_v == s.guides_v
            &&& s.mode is GuideV ==> next.guides_v == s.guides_v.push(s.cursor.x)
                && next.guides_h == s.guides_h
            &&& next.undone() == s.with_mode(Mode::Ruler)
        }),
{
    law_undo_takes_back_the_last_pin(
        s.with_mode(Mode::Ruler),
        Rect { left: 0, top: 0, right: 0, bottom: 0 },
        0,
        0,
    );
}

// Dragging

/// A press and a release drag out the rectangle between the two points, and leave everything
/// pinned as it was. No drag starts on the button of a selection.
pub proof fn law_drag_spans_press_and_release(
    s: SessionView,
    now: u64,
    pixel: Option<Rgb>,
    end: Point,
)
    requires
        s.mode is Ruler,
        !s.game.waiting,
    ensures
        ({
            let pressed = s.press(now, false, pixel).0;
            let moved = SessionView { cursor: end, ..pressed };
            if s.over_open_button() {
                pressed == s
            } else {
                &&& moved.dragged_out() == Some(spanned(s.cursor, end))
                &&& moved.released() == (SessionView {
                    cursor: end,
                    dragging: false,
                    start: None,
                    ..s
                })
            }
        }),
{
}

// Clearing

/// Escape comes to the end of the session in at most three presses: out of guide placement,
/// then everything cleared, then closed.
pub proof fn law_escape_ends_the_session(s: SessionView)
    ensures
        ({
            let once = s.escape();
            let twice = once.next.escape();
            let thrice = twice.next.escape();
            ||| once.effects.contains(Effect::Close)
            ||| twice.effects.contains(Effect::Close)
            ||| thrice.effects.contains(Effect::Close)
        }),
{
    let once = s.escape();
    let twice = once.next.escape();
    let thrice = twice.next.escape();
    if !s.placing_guide() && !s.has_anything() {
        assert(once.effects[0] == Effect::Close);
    } else if !once.next.placing_guide() && !once.next.has_anything() {
        assert(twice.effects[0] == Effect::Close);
    } else {
        assert(thrice.effects[0] == Effect::Close);
    }
}

/// Escape ends the session if there is nothing to clear, and otherwise clears all there is,
/// except while a guide is placed, which it cancels.
pub proof fn law_escape_clears_before_it_closes(s: SessionView)
    requires
        !s.placing_guide(),
    ensures
        ({
            let step = s.escape();
            let empty = !s.dragging && pinned(s) == 0 && !s.game.in_round();
            if empty {
                step.next == s && step.effects == seq![Effect::Close]
            } else {
                step.next == s.cleared() && !step.effects.contains(Effect::Close)
            }
        }),
{
    let step = s.escape();
    if step.effects.len() == 3 {
        assert(step.effects[0] != Effect::Close && step.effects[1] != Effect::Close
            && step.effects[2] != Effect::Close);
    }
}

/// Reset leads to measuring with nothing on the screen and nothing to undo, whatever was there
/// before.
pub proof fn law_reset_leaves_nothing(s: SessionView, shift: bool, ctrl: bool, now: u64)
    ensures
        ({
            let next = s.key(Key::R, shift, ctrl, now).next;
            &&& next.mode is Ruler
            &&& !next.has_anything()
            &&& next.undo_stack.len() == 0
            &&& next.undone() == next
            &&& next.tolerance_level == s.tolerance_level
            &&& next.snap_enabled == s.snap_enabled
        }),
{
}

// Selections

/// With a selection on the screen, C copies it and S saves it, the last one if there are
/// several, and neither changes anything. Without one, C goes to color picking and comes back
/// with all guides and lines as they were.
pub proof fn law_keys_act_on_last_selection(s: SessionView, shift: bool, ctrl: bool, now: u64)
    requires
        s.inv(),
        s.mode is Ruler,
    ensures
        s.snapped_rects.len() > 0 ==> {
            &&& s.key(Key::C, shift, ctrl, now).next == s
            &&& s.key(Key::C, shift, ctrl, now).effects == seq![
                Effect::CopySelection(s.snapped_rects.last()),
            ]
            &&& s.key(Key::S, shift, ctrl, now).next == s
            &&& s.key(Key::S, shift, ctrl, now).effects == seq![
                Effect::SaveSelection(s.snapped_rects.last()),
            ]
        },
        s.snapped_rects.len() == 0 ==> {
            let color = s.key(Key::C, shift, ctrl, now).next;
            let back = color.key(Key::C, shift, ctrl, now).next;
            &&& color.mode is Color
            &&& back.mode is Ruler
            &&& back.guides_h == s.guides_h
            &&& back.guides_v == s.guides_v
            &&& back.measure_lines_h == s.measure_lines_h
            &&& back.measure_lines_v == s.measure_lines_v
            &&& back.undo_stack == s.undo_stack
        },
{
    lemma_without_selections(s.undo_stack);
}

// The cursor

/// A nudged cursor stays where it is until the pointer moves; then it goes to the pointer, or
/// to where the magnet pulls it while snapping is on.
pub proof fn law_nudge_sticks_until_pointer_moves(
    s: SessionView,
    nudged: Point,
    raw: Point,
    magnet: Point,
)
    ensures
        ({
            let next = (SessionView { cursor: nudged, ..s }).polled(raw, magnet);
            &&& next.last_raw_cursor == raw
            &&& raw == s.last_raw_cursor ==> next.cursor == nudged
            &&& raw != s.last_raw_cursor && !s.snap_enabled ==> next.cursor == raw
            &&& raw != s.last_raw_cursor && s.snap_enabled ==> next.cursor == magnet
            &&& next == (SessionView { cursor: next.cursor, last_raw_cursor: raw, ..s })
        }),
{
}

} // verus!
