//! Laws of single inputs: what each key, click and frame does, and what it leaves alone.

use crate::geometry::Rect;
use crate::screenshot::Rgb;
use crate::session::{
    lemma_without_selections, occurrences, without_selections, Effect, Key, Message, Mode, Session,
    SessionView, Sound, UndoItem,
};
use vstd::prelude::*;

verus! {

/// Whether two states have the same things pinned, in the same order.
pub open spec fn same_pins(a: SessionView, b: SessionView) -> bool {
    &&& a.snapped_rects == b.snapped_rects
    &&& a.guides_h == b.guides_h
    &&& a.guides_v == b.guides_v
    &&& a.measure_lines_h == b.measure_lines_h
    &&& a.measure_lines_v == b.measure_lines_v
    &&& a.undo_stack == b.undo_stack
}

/// Whether nothing at all is pinned.
pub open spec fn no_pins(s: SessionView) -> bool {
    &&& s.snapped_rects.len() == 0
    &&& s.guides_h.len() == 0
    &&& s.guides_v.len() == 0
    &&& s.measure_lines_h.len() == 0
    &&& s.measure_lines_v.len() == 0
}

/// Whether two states have the same switches set: snapping, tolerance and hints.
pub open spec fn same_switches(a: SessionView, b: SessionView) -> bool {
    &&& a.snap_enabled == b.snap_enabled
    &&& a.tolerance_level == b.tolerance_level
    &&& a.show_legend == b.show_legend
    &&& a.legend_available == b.legend_available
}

/// Whether two states have the same drag under way, or none.
pub open spec fn same_drag(a: SessionView, b: SessionView) -> bool {
    a.dragging == b.dragging && a.start == b.start
}

/// Whether the effects show the pointer, the hints and the screen anew.
pub open spec fn shows_all(effects: Seq<Effect>) -> bool {
    &&& effects.len() == 3
    &&& effects[0] == Effect::SyncCursor
    &&& effects[1] == Effect::RefreshLegend
    &&& effects[2] == Effect::Redraw
}

/// Whether the effects announce a message and show the screen anew.
pub open spec fn announces(effects: Seq<Effect>, message: Message) -> bool {
    &&& effects.len() == 2
    &&& effects[0] == Effect::Flash(message)
    &&& effects[1] == Effect::Redraw
}

/// No key moves the cursor by itself, forgets where the pointer or the size readout is, or lets
/// go of Shift.
pub proof fn law_keys_leave_the_cursor(s: SessionView, key: Key, shift: bool, ctrl: bool, now: u64)
    ensures
        ({
            let next = s.key(key, shift, ctrl, now).next;
            &&& next.cursor == s.cursor
            &&& next.last_raw_cursor == s.last_raw_cursor
            &&& next.hover_box == s.hover_box
            &&& next.legend_available == s.legend_available
            &&& next.shift_held == (s.shift_held || key is Shift)
            &&& next.game.high_score == s.game.high_score
        }),
{
}

/// Only Escape, C, R and Ctrl with Z take anything off the screen, and no key pins anything at
/// once.
pub proof fn law_few_keys_take_pins_off(s: SessionView, key: Key, shift: bool, ctrl: bool, now: u64)
    ensures
        ({
            let next = s.key(key, shift, ctrl, now).next;
            &&& key !is Escape && key !is C && key !is R && key !is Z ==> same_pins(next, s)
            &&& key is Z && !ctrl ==> same_pins(next, s)
            &&& key !is Escape && key !is C && key !is R ==> same_drag(next, s)
            &&& key !is N && key !is T && key !is Minus && key !is Equal && key !is L
                ==> same_switches(next, s)
            &&& key !is Escape && key !is R && key !is D ==> next.game == s.game
            &&& key !is C ==> next.copied == s.copied
            &&& key !is Escape && key !is C && key !is R && key !is H && key !is V ==> next.mode
                == s.mode
        }),
{
}

/// Escape while a guide is placed goes back to measuring and changes nothing else. Otherwise, if
/// anything is pinned, dragged or hunted, it takes all that off, and the mode and the switches
/// stay. Only if there is nothing at all it ends the session.
pub proof fn law_escape_key(s: SessionView, shift: bool, ctrl: bool, now: u64)
    ensures
        ({
            let r = s.key(Key::Escape, shift, ctrl, now);
            let hunting = s.game.duck is Some || s.game.next_spawn is Some || s.game.waiting;
            &&& r.handled
            &&& if s.mode is GuideH || s.mode is GuideV {
                &&& r.next == (SessionView { mode: Mode::Ruler, ..s })
                &&& shows_all(r.effects)
            } else if hunting || s.dragging || !no_pins(s) {
                &&& no_pins(r.next) && r.next.undo_stack.len() == 0
                &&& !r.next.dragging && r.next.start is None
                &&& r.next.game.duck is None && r.next.game.next_spawn is None
                &&& !r.next.game.waiting && r.next.game.score == 0
                &&& r.next.mode == s.mode && same_switches(r.next, s)
                &&& shows_all(r.effects)
            } else {
                &&& r.next == s
                &&& r.effects.len() == 1 && r.effects[0] == Effect::Close
            }
        }),
{
}

/// C copies the newest selection while measuring. Without one it goes from measuring to color
/// picking, and from anything else to measuring. That ends a drag and takes the selections off,
/// also from what can be undone, and the note of a copied color; guides and lines stay.
pub proof fn law_c_key(s: SessionView, shift: bool, ctrl: bool, now: u64)
    requires
        s.inv(),
    ensures
        ({
            let r = s.key(Key::C, shift, ctrl, now);
            &&& r.handled
            &&& if s.mode is Ruler && s.snapped_rects.len() > 0 {
                &&& r.next == s
                &&& r.effects.len() == 1
                &&& r.effects[0] == Effect::CopySelection(
                    s.snapped_rects[s.snapped_rects.len() - 1],
                )
            } else {
                &&& s.mode is Ruler ==> r.next.mode is Color
                &&& s.mode !is Ruler ==> r.next.mode is Ruler
                &&& !r.next.dragging && r.next.start is None
                &&& r.next.snapped_rects.len() == 0
                &&& r.next.copied is None
                &&& r.next.guides_h == s.guides_h && r.next.guides_v == s.guides_v
                &&& r.next.measure_lines_h == s.measure_lines_h
                &&& r.next.measure_lines_v == s.measure_lines_v
                &&& occurrences(r.next.undo_stack, UndoItem::Rect) == 0
                &&& s.snapped_rects.len() == 0 ==> r.next.undo_stack == s.undo_stack
                &&& shows_all(r.effects)
            }
        }),
{
    lemma_without_selections(s.undo_stack);
}

/// S saves the newest selection while measuring, and does nothing without one.
pub proof fn law_s_key(s: SessionView, shift: bool, ctrl: bool, now: u64)
    ensures
        ({
            let r = s.key(Key::S, shift, ctrl, now);
            &&& r.handled && r.next == s
            &&& s.mode is Ruler && s.snapped_rects.len() > 0 ==> r.effects.len() == 1
                && r.effects[0] == Effect::SaveSelection(
                s.snapped_rects[s.snapped_rects.len() - 1],
            )
            &&& s.mode !is Ruler || s.snapped_rects.len() == 0 ==> r.effects.len() == 0
        }),
{
}

/// N turns snapping over and L the hints, and nothing else changes. N says what snapping is now.
pub proof fn law_switch_keys(s: SessionView, shift: bool, ctrl: bool, now: u64)
    ensures
        ({
            let n = s.key(Key::N, shift, ctrl, now);
            let l = s.key(Key::L, shift, ctrl, now);
            &&& n.handled && l.handled
            &&& n.next == (SessionView { snap_enabled: !s.snap_enabled, ..s })
            &&& l.next == (SessionView { show_legend: !s.show_legend, ..s })
            &&& n.next.snap_enabled ==> announces(n.effects, Message::SnapOn)
            &&& !n.next.snap_enabled ==> announces(n.effects, Message::SnapOff)
            &&& l.effects.len() == 2 && l.effects[0] == Effect::RefreshLegend && l.effects[1]
                == Effect::Redraw
        }),
{
}

/// T goes to the next tolerance level and from the last to the first, minus one down and equal one
/// up as far as there are levels. Each says which level it is now, and nothing else changes.
pub proof fn law_tolerance_keys(s: SessionView, shift: bool, ctrl: bool, now: u64)
    requires
        s.inv(),
    ensures
        ({
            let (l, t) = (s.tolerance_level, s.key(Key::T, shift, ctrl, now));
            let (m, e) = (s.key(Key::Minus, shift, ctrl, now), s.key(Key::Equal, shift, ctrl, now));
            let (a, b, c) = (
                t.next.tolerance_level,
                m.next.tolerance_level,
                e.next.tolerance_level,
            );
            &&& l < 3 ==> a == l + 1
            &&& l == 3 ==> a == 0
            &&& l > 0 ==> b == l - 1
            &&& l == 0 ==> b == 0
            &&& l < 3 ==> c == l + 1
            &&& l == 3 ==> c == 3
            &&& t.next == (SessionView { tolerance_level: a, ..s })
            &&& m.next == (SessionView { tolerance_level: b, ..s })
            &&& e.next == (SessionView { tolerance_level: c, ..s })
            &&& t.handled && m.handled && e.handled
            &&& announces(t.effects, Message::Tolerance(a as usize))
            &&& announces(m.effects, Message::Tolerance(b as usize))
            &&& announces(e.effects, Message::Tolerance(c as usize))
        }),
{
}

/// R goes back to measuring with nothing pinned, dragged or hunted. The switches, the scores that
/// are kept and the note of a copied color stay.
pub proof fn law_r_key(s: SessionView, shift: bool, ctrl: bool, now: u64)
    ensures
        ({
            let r = s.key(Key::R, shift, ctrl, now);
            &&& r.handled && shows_all(r.effects)
            &&& r.next.mode is Ruler
            &&& no_pins(r.next) && r.next.undo_stack.len() == 0
            &&& !r.next.dragging && r.next.start is None
            &&& r.next.game.duck is None && r.next.game.next_spawn is None
            &&& !r.next.game.waiting && r.next.game.score == 0
            &&& same_switches(r.next, s) && r.next.copied == s.copied
        }),
{
}

/// Ctrl with Z takes the newest pin off, of whatever kind, and leaves all others in their order.
/// With nothing pinned it changes nothing, and without Ctrl the key is not taken.
pub proof fn law_z_key(s: SessionView, shift: bool, now: u64)
    requires
        s.inv(),
    ensures
        ({
            let r = s.key(Key::Z, shift, true, now);
            let without = s.key(Key::Z, shift, false, now);
            let n = s.undo_stack.len() - 1;
            &&& without.next == s && without.effects.len() == 0 && !without.handled
            &&& r.handled && shows_all(r.effects)
            &&& n < 0 ==> r.next == s
            &&& n >= 0 ==> {
                let kind = s.undo_stack[n];
                let k = |x: UndoItem, len: nat|
                    if x == kind && len > 0 {
                        len - 1
                    } else {
                        len as int
                    };
                &&& r.next.undo_stack == s.undo_stack.take(n)
                &&& r.next.snapped_rects == s.snapped_rects.take(
                    k(UndoItem::Rect, s.snapped_rects.len()),
                )
                &&& r.next.guides_h == s.guides_h.take(k(UndoItem::GuideH, s.guides_h.len()))
                &&& r.next.guides_v == s.guides_v.take(k(UndoItem::GuideV, s.guides_v.len()))
                &&& r.next.measure_lines_h == s.measure_lines_h.take(
                    k(UndoItem::MeasureH, s.measure_lines_h.len()),
                )
                &&& r.next.measure_lines_v == s.measure_lines_v.take(
                    k(UndoItem::MeasureV, s.measure_lines_v.len()),
                )
                &&& r.next.mode == s.mode
            }
        }),
{
    let r = s.key(Key::Z, shift, true, now).next;
    assert(s.snapped_rects.take(s.snapped_rects.len() as int) =~= s.snapped_rects);
    assert(s.guides_h.take(s.guides_h.len() as int) =~= s.guides_h);
    assert(s.guides_v.take(s.guides_v.len() as int) =~= s.guides_v);
    assert(s.measure_lines_h.take(s.measure_lines_h.len() as int) =~= s.measure_lines_h);
    assert(s.measure_lines_v.take(s.measure_lines_v.len() as int) =~= s.measure_lines_v);
    if s.undo_stack.len() > 0 {
        assert(r.undo_stack =~= s.undo_stack.take(s.undo_stack.len() - 1));
        assert(s.snapped_rects.len() > 0 ==> s.snapped_rects.drop_last() =~= s.snapped_rects.take(
            s.snapped_rects.len() - 1,
        ));
        assert(s.guides_h.len() > 0 ==> s.guides_h.drop_last() =~= s.guides_h.take(
            s.guides_h.len() - 1,
        ));
        assert(s.guides_v.len() > 0 ==> s.guides_v.drop_last() =~= s.guides_v.take(
            s.guides_v.len() - 1,
        ));
        assert(s.measure_lines_h.len() > 0 ==> s.measure_lines_h.drop_last()
            =~= s.measure_lines_h.take(s.measure_lines_h.len() - 1));
        assert(s.measure_lines_v.len() > 0 ==> s.measure_lines_v.drop_last()
            =~= s.measure_lines_v.take(s.measure_lines_v.len() - 1));
    }
}

/// D starts a hunt, with a duck now and no score, or ends the one that is on and tells its score
/// unless that is 0. Nothing else changes.
pub proof fn law_d_key(s: SessionView, shift: bool, ctrl: bool, now: u64)
    requires
        now + 600_000_000 <= u64::MAX,
    ensures
        ({
            let r = s.key(Key::D, shift, ctrl, now);
            let hunting = s.game.duck is Some || s.game.next_spawn is Some || s.game.waiting;
            &&& r.handled
            &&& r.next == (SessionView { game: r.next.game, ..s })
            &&& r.next.game.score == 0 && r.next.game.high_score == s.game.high_score
            &&& r.next.game.next_spawn is None && !r.next.game.waiting
            &&& hunting ==> r.next.game.duck is None
            &&& hunting && s.game.score > 0 ==> announces(
                r.effects,
                Message::FinalScore(s.game.score),
            )
            &&& hunting && s.game.score == 0 ==> r.effects.len() == 1 && r.effects[0]
                == Effect::Redraw
            &&& !hunting ==> {
                &&& r.next.game.duck matches Some(clock)
                &&& clock.spawned == now && clock.last_update == now
                &&& clock.next_turn == now + 600_000_000
                &&& r.effects.len() == 3
                &&& r.effects[0] == Effect::SpawnDuck
                &&& r.effects[1] == Effect::Play(Sound::Chime)
                &&& r.effects[2] == Effect::Redraw
            }
        }),
{
}

/// H and V measure at the cursor, across and down, while measuring. With Shift they start to
/// place a guide, across and down, except while a color is picked. Otherwise they are not taken.
pub proof fn law_line_keys(s: SessionView, ctrl: bool, now: u64)
    ensures
        ({
            let (h, v) = (s.key(Key::H, false, ctrl, now), s.key(Key::V, false, ctrl, now));
            let (hs, vs) = (s.key(Key::H, true, ctrl, now), s.key(Key::V, true, ctrl, now));
            &&& h.next == s && v.next == s
            &&& h.handled <==> s.mode is Ruler
            &&& v.handled <==> s.mode is Ruler
            &&& s.mode is Ruler ==> h.effects.len() == 2 && h.effects[0] == Effect::MeasureH
                && h.effects[1] == Effect::Redraw
            &&& s.mode is Ruler ==> v.effects.len() == 2 && v.effects[0] == Effect::MeasureV
                && v.effects[1] == Effect::Redraw
            &&& s.mode !is Ruler ==> h.effects.len() == 0 && v.effects.len() == 0
            &&& hs.handled <==> s.mode !is Color
            &&& vs.handled <==> s.mode !is Color
            &&& s.mode is Color ==> hs.next == s && vs.next == s && hs.effects.len() == 0
                && vs.effects.len() == 0
            &&& s.mode !is Color ==> hs.next == (SessionView { mode: Mode::GuideH, ..s })
            &&& s.mode !is Color ==> vs.next == (SessionView { mode: Mode::GuideV, ..s })
            &&& s.mode !is Color ==> shows_all(hs.effects) && shows_all(vs.effects)
        }),
{
}

/// An arrow moves the cursor its way by one pixel, or by ten with Shift.
pub proof fn law_arrow_keys(s: SessionView, key: Key, shift: bool, ctrl: bool, now: u64)
    requires
        key is Up || key is Down || key is Left || key is Right,
    ensures
        ({
            let r = s.key(key, shift, ctrl, now);
            &&& r.handled && r.next == s && r.effects.len() == 2 && r.effects[1] == Effect::Redraw
            &&& r.effects[0] matches Effect::Nudge { dx, dy }
            &&& key is Up ==> dx == 0 && dy < 0
            &&& key is Down ==> dx == 0 && dy > 0
            &&& key is Left ==> dx < 0 && dy == 0
            &&& key is Right ==> dx > 0 && dy == 0
            &&& shift ==> dx + dy == 10 || dx + dy == -10
            &&& !shift ==> dx + dy == 1 || dx + dy == -1
        }),
{
}

/// Shift is noted and passed on, and a key that means nothing is passed on too.
pub proof fn law_keys_passed_on(s: SessionView, shift: bool, ctrl: bool, now: u64)
    ensures
        ({
            let r = s.key(Key::Shift, shift, ctrl, now);
            let other = s.key(Key::Other, shift, ctrl, now);
            &&& r.next == (SessionView { shift_held: true, ..s }) && !r.handled
            &&& r.effects.len() == 1 && r.effects[0] == Effect::Redraw
            &&& other.next == s && other.effects.len() == 0 && !other.handled
        }),
{
}

// The mouse

/// A click while the hunt waits lets a duck come and does nothing else.
pub proof fn law_click_goes_on_with_the_hunt(
    s: SessionView,
    now: u64,
    hit: bool,
    pixel: Option<Rgb>,
)
    requires
        s.game.waiting,
        now + 600_000_000 <= u64::MAX,
    ensures
        ({
            let (next, effects) = s.press(now, hit, pixel);
            &&& next == (SessionView { game: next.game, ..s })
            &&& !next.game.waiting && next.game.next_spawn is None
            &&& next.game.duck matches Some(clock)
            &&& clock.spawned == now && clock.last_update == now
            &&& clock.next_turn == now + 600_000_000
            &&& next.game.score == s.game.score && next.game.high_score == s.game.high_score
            &&& effects.len() == 3
            &&& effects[0] == Effect::SpawnDuck
            &&& effects[1] == Effect::Play(Sound::Chime)
            &&& effects[2] == Effect::Redraw
        }),
{
}

/// A click that hits the duck is a shot and a kill and nothing else. A new high score is saved and
/// told as such.
pub proof fn law_click_kills_the_duck(s: SessionView, now: u64, pixel: Option<Rgb>)
    requires
        !s.game.waiting,
        s.game.duck is Some,
        s.game.score < u32::MAX,
        now + 2_000_000_000 <= u64::MAX,
    ensures
        ({
            let (next, effects) = s.press(now, true, pixel);
            let score = (s.game.score + 1) as u32;
            &&& next == (SessionView { game: next.game, ..s })
            &&& next.game.duck is None && !next.game.waiting
            &&& next.game.next_spawn == Some((now + 2_000_000_000) as u64)
            &&& next.game.score == score
            &&& effects[0] == Effect::Play(Sound::Shot)
            &&& score > s.game.high_score ==> {
                &&& next.game.high_score == score
                &&& effects.len() == 5
                &&& effects[1] == Effect::SaveHighScore(score)
                &&& effects[2] == Effect::Play(Sound::Quack)
                &&& effects[3] == Effect::Flash(Message::HighScore(score))
                &&& effects[4] == Effect::Redraw
            }
            &&& score <= s.game.high_score ==> {
                &&& next.game.high_score == s.game.high_score
                &&& effects.len() == 4
                &&& effects[1] == Effect::Play(Sound::Quack)
                &&& effects[2] == Effect::Flash(Message::Quack(score))
                &&& effects[3] == Effect::Redraw
            }
        }),
{
}

/// Any other click does what the mode says, behind the sound of a shot if there is a duck to miss.
/// While measuring it opens the newest selection if it lands on its size readout, and starts a
/// drag at the cursor otherwise. While a color is picked it copies the one under the cursor, if
/// there is one. While a guide is placed it pins it at the cursor. It never touches the hunt.
pub proof fn law_click_does_what_the_mode_says(
    s: SessionView,
    now: u64,
    hit: bool,
    pixel: Option<Rgb>,
)
    requires
        !s.game.waiting,
        s.game.duck is None || !hit,
    ensures
        ({
            let (next, effects) = s.press(now, hit, pixel);
            let n = effects.len() as int;
            let first: int = if s.game.duck is Some {
                1
            } else {
                0
            };
            let on_readout = s.snapped_rects.len() > 0 && (s.hover_box matches Some(b) && b.left
                <= s.cursor.x <= b.right && b.top <= s.cursor.y <= b.bottom);
            let rest = SessionView {
                mode: s.mode,
                dragging: s.dragging,
                start: s.start,
                guides_h: s.guides_h,
                guides_v: s.guides_v,
                undo_stack: s.undo_stack,
                copied: s.copied,
                ..next
            };
            &&& rest == s
            &&& s.game.duck is Some ==> effects[0] == Effect::Play(Sound::Shot)
            &&& effects[n - 2] == Effect::SyncCursor && effects[n - 1] == Effect::Redraw
            &&& s.mode is Ruler && on_readout ==> next == s && n == first + 3 && effects[first]
                == Effect::OpenSelection(s.snapped_rects[s.snapped_rects.len() - 1])
            &&& s.mode is Ruler && !on_readout ==> n == first + 2 && next == (SessionView {
                dragging: true,
                start: Some(s.cursor),
                ..s
            })
            &&& s.mode is Color ==> match pixel {
                Some(c) => next == (SessionView { copied: Some(c), ..s }) && n == first + 3
                    && effects[first] == Effect::CopyColor(c),
                None => next == s && n == first + 2,
            }
            &&& s.mode is GuideH ==> {
                &&& next.mode is Ruler && same_drag(next, s) && next.copied == s.copied
                &&& next.guides_h == s.guides_h.push(s.cursor.y) && next.guides_v == s.guides_v
                &&& next.undo_stack == s.undo_stack.push(UndoItem::GuideH)
                &&& n == first + 3 && effects[first] == Effect::RefreshLegend
            }
            &&& s.mode is GuideV ==> {
                &&& next.mode is Ruler && same_drag(next, s) && next.copied == s.copied
                &&& next.guides_v == s.guides_v.push(s.cursor.x) && next.guides_h == s.guides_h
                &&& next.undo_stack == s.undo_stack.push(UndoItem::GuideV)
                &&& n == first + 3 && effects[first] == Effect::RefreshLegend
            }
        }),
{
    let (next, effects) = s.press(now, hit, pixel);
}

/// A release ends a drag while measuring and leaves the box between its two ends, and means
/// nothing otherwise. What is selected then is pinned behind everything else.
pub proof fn law_release_ends_the_drag(s: SessionView, selected: Rect)
    ensures
        s.mode is Ruler && s.dragging ==> s.released() == (SessionView {
            dragging: false,
            start: None,
            ..s
        }),
        s.mode !is Ruler || !s.dragging ==> s.released() == s && s.dragged_out() is None,
        s.mode is Ruler && s.dragging ==> (s.start matches Some(from) ==> {
            &&& s.dragged_out() matches Some(r)
            &&& r.left <= from.x <= r.right && r.left <= s.cursor.x <= r.right
            &&& r.top <= from.y <= r.bottom && r.top <= s.cursor.y <= r.bottom
            &&& r.left == from.x || r.left == s.cursor.x
            &&& r.right == from.x || r.right == s.cursor.x
            &&& r.top == from.y || r.top == s.cursor.y
            &&& r.bottom == from.y || r.bottom == s.cursor.y
        }),
        s.settled(None) == s,
        s.settled(Some(selected)) == (SessionView {
            snapped_rects: s.snapped_rects.push(selected),
            undo_stack: s.undo_stack.push(UndoItem::Rect),
            ..s
        }),
{
}

/// A measure line is pinned at the cursor, behind those that are there, with the ends that were
/// measured, and nothing else changes.
pub proof fn law_measure_lines_are_pinned_at_the_cursor(s: SessionView, from: i64, to: i64)
    ensures
        s.with_measure_h(from, to) == (SessionView {
            measure_lines_h: s.measure_lines_h.push((s.cursor.y, from, to)),
            undo_stack: s.undo_stack.push(UndoItem::MeasureH),
            ..s
        }),
        s.with_measure_v(from, to) == (SessionView {
            measure_lines_v: s.measure_lines_v.push((s.cursor.x, from, to)),
            undo_stack: s.undo_stack.push(UndoItem::MeasureV),
            ..s
        }),
{
}

/// A frame of the hunt is heard and told if the duck is gone, with the score that is lost, and
/// shows the screen anew while anything moves or is about to.
pub proof fn law_frames_tell_of_a_lost_duck(s: SessionView, now: u64, offscreen: bool)
    ensures
        ({
            let effects = s.frame_effects(now, offscreen);
            match s.game.duck {
                Some(clock) => if offscreen || now >= clock.spawned + 15_000_000_000 {
                    &&& effects.len() == 3
                    &&& effects[0] == Effect::Play(Sound::Fail)
                    &&& effects[1] == Effect::Flash(Message::Missed(s.game.score))
                    &&& effects[2] == Effect::Redraw
                } else {
                    effects.len() == 1 && effects[0] == Effect::Redraw
                },
                None => {
                    &&& s.game.next_spawn is Some ==> effects.len() == 1 && effects[0]
                        == Effect::Redraw
                    &&& s.game.next_spawn is None ==> effects.len() == 0
                },
            }
        }),
{
}

/// A release always shows the pointer and the screen anew, and the hints first if something was
/// selected.
pub proof fn law_release_shows_the_screen(selected: Option<Rect>)
    ensures
        ({
            let effects = SessionView::release_effects(selected);
            let n = effects.len() as int;
            &&& selected is Some ==> n == 3 && effects[0] == Effect::RefreshLegend
            &&& selected is None ==> n == 2
            &&& effects[n - 2] == Effect::SyncCursor && effects[n - 1] == Effect::Redraw
        }),
{
}

// States

/// What is told of a session is what its fields hold.
pub proof fn law_session_shows_its_fields(s: Session)
    ensures
        s@.cursor == s.cursor,
        s@.last_raw_cursor == s.last_raw_cursor,
        s@.mode == s.mode,
        s@.dragging == s.dragging,
        s@.start == s.start,
        s@.snapped_rects == s.snapped_rects@,
        s@.hover_box == s.hover_box,
        s@.snap_enabled == s.snap_enabled,
        s@.tolerance_level == s.tolerance_level,
        s@.show_legend == s.show_legend,
        s@.legend_available == s.legend_available,
        s@.shift_held == s.shift_held,
        s@.measure_lines_h == s.measure_lines_h@,
        s@.measure_lines_v == s.measure_lines_v@,
        s@.guides_h == s.guides_h@,
        s@.guides_v == s.guides_v@,
        s@.undo_stack == s.undo_stack@,
        s@.copied == s.copied,
        s@.game == s.game,
{
}

/// A state is consistent if its tolerance level is one of the four, a drag has a start and nothing
/// else has, no selection is there while a color is picked, and of each kind as many things are
/// pinned as can be undone. The hunt is in at most one of its phases, with no more than its high
/// score.
pub proof fn law_consistent_states(s: SessionView)
    ensures
        s.inv() <==> {
            &&& 0 <= s.tolerance_level <= 3
            &&& s.dragging <==> s.start is Some
            &&& s.mode is Color ==> s.snapped_rects.len() == 0
            &&& occurrences(s.undo_stack, UndoItem::Rect) == s.snapped_rects.len()
            &&& occurrences(s.undo_stack, UndoItem::GuideH) == s.guides_h.len()
            &&& occurrences(s.undo_stack, UndoItem::GuideV) == s.guides_v.len()
            &&& occurrences(s.undo_stack, UndoItem::MeasureH) == s.measure_lines_h.len()
            &&& occurrences(s.undo_stack, UndoItem::MeasureV) == s.measure_lines_v.len()
            &&& !(s.game.duck is Some && s.game.next_spawn is Some)
            &&& !(s.game.duck is Some && s.game.waiting)
            &&& !(s.game.next_spawn is Some && s.game.waiting)
            &&& s.game.score <= s.game.high_score
        },
{
}

/// Without the selections, the rest of what can be undone keeps its order, and each thing counts
/// for its own kind alone.
pub proof fn law_undo_order_without_selections(s: Seq<UndoItem>, item: UndoItem, kind: UndoItem)
    ensures
        without_selections(seq![]).len() == 0,
        item is Rect ==> without_selections(s.push(item)) == without_selections(s),
        item !is Rect ==> without_selections(s.push(item)) == without_selections(s).push(item),
        occurrences(seq![], kind) == 0,
        item == kind ==> occurrences(s.push(item), kind) == occurrences(s, kind) + 1,
        item != kind ==> occurrences(s.push(item), kind) == occurrences(s, kind),
{
    reveal(Seq::filter);
    assert(s.push(item).drop_last() =~= s);
}

} // verus!
