//! Sessions, played through.

use omaruler::display::{draw_list as draw_list_of, DrawOp};
use omaruler::duck::{
    DuckClock, Flight, Game, Rng, DUCK_LIFETIME, DUCK_RESPAWN_DELAY, FIRST_TURN_DELAY, LONGEST_STEP,
};
use omaruler::geometry::{
    drag_rect, guide_gaps, place_label, point_in_rect, rects_overlap, sorted_guides, Point, Rect,
};
use omaruler::hints::{
    color_label, copied_text, cursor_name, legend_args, legend_entries, message_text,
    refresh_legend, tolerance_name, CardCall,
};
use omaruler::screenshot::{Rgb, Screenshot};
use omaruler::session::{
    tolerance, Effect, Key, Message, Mode, Session, Sound, UndoItem, DEFAULT_TOLERANCE_LEVEL,
    TOLERANCE_LEVELS,
};

fn draw_list(s: &Session, w: i64, h: i64, pixel: Option<Rgb>) -> Vec<DrawOp> {
    draw_list_of(s, w, h, pixel, |from, to| to - from, 1)
}

fn session() -> Session {
    Session::new(true, 5)
}

fn key(s: &mut Session, key: Key) -> Vec<Effect> {
    let response = s.key_pressed(key, false, false, 0);
    assert!(response.handled);
    response.effects
}

fn shifted(s: &mut Session, key: Key) -> Vec<Effect> {
    s.key_pressed(key, true, false, 0).effects
}

fn undo(s: &mut Session) -> Vec<Effect> {
    s.key_pressed(Key::Z, false, true, 0).effects
}

fn click(s: &mut Session) -> Vec<Effect> {
    s.pressed(0, false, None)
}

fn at(s: &mut Session, x: i64, y: i64) {
    s.move_cursor(Point { x, y });
}

fn rect(left: i64, top: i64, right: i64, bottom: i64) -> Rect {
    Rect { left, top, right, bottom }
}

fn select(s: &mut Session, r: Rect) {
    at(s, r.left, r.top);
    click(s);
    at(s, r.right, r.bottom);
    assert_eq!(s.released(), Some(r));
    let effects = s.finish_release(Some(r));
    assert_eq!(effects, vec![Effect::RefreshLegend, Effect::SyncCursor, Effect::Redraw]);
}

const VISIBLY: [Effect; 3] = [Effect::SyncCursor, Effect::RefreshLegend, Effect::Redraw];

#[test]
fn session_starts_measuring() {
    let s = session();
    assert_eq!(s.mode, Mode::Ruler);
    assert_eq!(s.tolerance_level, 3);
    assert!(s.snap_enabled && s.show_legend && s.legend_available);
    assert!(!s.dragging && !s.shift_held);
    assert_eq!((s.game.score, s.game.high_score), (0, 5));
    assert!(s.undo_stack.is_empty() && s.copied.is_none());
}

#[test]
fn tolerances() {
    assert_eq!((tolerance(0), tolerance(1), tolerance(2), tolerance(3)), (0, 10, 24, 48));
    assert_eq!((TOLERANCE_LEVELS, DEFAULT_TOLERANCE_LEVEL), (4, 3));
    assert_eq!(tolerance_name(0), "Off");
    assert_eq!(tolerance_name(1), "Low");
    assert_eq!(tolerance_name(2), "Med");
    assert_eq!(tolerance_name(3), "High");
}

#[test]
fn tolerance_levels_cycle() {
    let mut s = session();
    for level in [0, 1, 2, 3, 0] {
        assert_eq!(key(&mut s, Key::T), vec![Effect::Flash(Message::Tolerance(level)), Effect::Redraw]);
        assert_eq!(s.tolerance_level, level);
    }
}

#[test]
fn tolerance_steps_stop_at_the_ends() {
    let mut s = session();
    key(&mut s, Key::Equal);
    assert_eq!(s.tolerance_level, 3);
    for level in [2, 1, 0, 0] {
        key(&mut s, Key::Minus);
        assert_eq!(s.tolerance_level, level);
    }
    key(&mut s, Key::Equal);
    assert_eq!(s.tolerance_level, 1);
}

#[test]
fn drag_gives_the_rectangle_between_press_and_release() {
    let mut s = session();
    at(&mut s, 40, 10);
    assert_eq!(click(&mut s), vec![Effect::SyncCursor, Effect::Redraw]);
    assert!(s.dragging);
    at(&mut s, 15, 30);
    assert_eq!(s.released(), Some(rect(15, 10, 40, 30)));
    assert!(!s.dragging && s.start.is_none());
    assert_eq!(s.finish_release(None), vec![Effect::SyncCursor, Effect::Redraw]);
    assert!(s.snapped_rects.is_empty() && s.undo_stack.is_empty());
    assert_eq!(s.released(), None);
}

#[test]
fn selections_add_up() {
    let mut s = session();
    select(&mut s, rect(1, 2, 30, 40));
    select(&mut s, rect(50, 60, 70, 80));
    assert_eq!(s.snapped_rects, vec![rect(1, 2, 30, 40), rect(50, 60, 70, 80)]);
    assert_eq!(s.undo_stack, vec![UndoItem::Rect, UndoItem::Rect]);
}

fn boxed() -> Screenshot {
    let mut data: Vec<u8> = Vec::new();
    for y in 0..24 {
        for x in 0..30 {
            let v: u8 = if (10..20).contains(&x) && (8..14).contains(&y) { 0 } else { 255 };
            data.extend_from_slice(&[v, v, v, 255]);
        }
    }
    Screenshot::new(30, 24, data).unwrap()
}

#[test]
fn dragged_selection_snaps_unless_that_is_off() {
    let mut s = session();
    assert_eq!(s.fit_selection(&boxed(), (25, 19), 2, (2, 1, 27, 20)), Some((9, 7, 20, 14)));
    assert_eq!(key(&mut s, Key::N), vec![Effect::Flash(Message::SnapOff), Effect::Redraw]);
    assert_eq!(s.fit_selection(&boxed(), (25, 19), 2, (2, 1, 27, 20)), Some((2, 1, 27, 20)));
    assert_eq!(key(&mut s, Key::N), vec![Effect::Flash(Message::SnapOn), Effect::Redraw]);
}

#[test]
fn tiny_drags_select_nothing() {
    let s = session();
    assert_eq!(s.fit_selection(&boxed(), (2, 19), 2, (2, 1, 4, 20)), None);
    assert_eq!(s.fit_selection(&boxed(), (19, 2), 2, (2, 1, 21, 3)), None);
    assert!(s.fit_selection(&boxed(), (3, 3), 2, (2, 1, 5, 4)).is_some());
}

#[test]
fn measuring_uses_the_tolerance_and_the_guides() {
    let s = session();
    assert_eq!(s.measure(&boxed(), 3, 10, &vec![], &vec![]), (0, 9, 0, 23));
    assert_eq!(s.measure(&boxed(), 3, 10, &vec![1, 6], &vec![12]), (1, 6, 0, 12));
    assert_eq!(s.measure(&boxed(), 30, 10, &vec![], &vec![]), (30, 30, 10, 10));
}

#[test]
fn measure_keys_ask_for_a_measurement() {
    let mut s = session();
    assert_eq!(key(&mut s, Key::H), vec![Effect::MeasureH, Effect::Redraw]);
    assert_eq!(key(&mut s, Key::V), vec![Effect::MeasureV, Effect::Redraw]);
    at(&mut s, 7, 9);
    s.pin_measure_h(3, 12);
    s.pin_measure_v(4, 20);
    assert_eq!(s.measure_lines_h, vec![(9, 3, 12)]);
    assert_eq!(s.measure_lines_v, vec![(7, 4, 20)]);
    assert_eq!(s.undo_stack, vec![UndoItem::MeasureH, UndoItem::MeasureV]);
}

#[test]
fn guide_is_placed_exactly_at_the_cursor() {
    let mut s = session();
    at(&mut s, 7, 9);
    assert_eq!(shifted(&mut s, Key::H), VISIBLY);
    assert_eq!(s.mode, Mode::GuideH);
    assert_eq!(click(&mut s), vec![Effect::RefreshLegend, Effect::SyncCursor, Effect::Redraw]);
    assert_eq!((s.mode, s.guides_h.clone()), (Mode::Ruler, vec![9]));
    shifted(&mut s, Key::V);
    click(&mut s);
    assert_eq!((s.mode, s.guides_v.clone()), (Mode::Ruler, vec![7]));
}

#[test]
fn guide_axes_switch_directly() {
    let mut s = session();
    shifted(&mut s, Key::H);
    assert_eq!(shifted(&mut s, Key::V), VISIBLY);
    assert_eq!(s.mode, Mode::GuideV);
    shifted(&mut s, Key::H);
    assert_eq!(s.mode, Mode::GuideH);
    assert!(s.guides_h.is_empty() && s.guides_v.is_empty());
}

#[test]
fn escape_cancels_a_guide_and_nothing_else() {
    let mut s = session();
    s.pin_measure_h(1, 2);
    shifted(&mut s, Key::V);
    assert_eq!(key(&mut s, Key::Escape), VISIBLY);
    assert_eq!(s.mode, Mode::Ruler);
    assert_eq!(s.measure_lines_h.len(), 1);
    assert!(s.guides_v.is_empty());
}

#[test]
fn escape_clears_then_closes() {
    let mut s = session();
    select(&mut s, rect(1, 2, 30, 40));
    s.pin_measure_v(1, 2);
    assert_eq!(key(&mut s, Key::Escape), VISIBLY);
    assert!(s.snapped_rects.is_empty() && s.measure_lines_v.is_empty() && s.undo_stack.is_empty());
    assert_eq!(key(&mut s, Key::Escape), vec![Effect::Close]);
}

#[test]
fn escape_clears_then_closes_in_color_mode_too() {
    let mut s = session();
    s.pin_measure_v(1, 2);
    shifted(&mut s, Key::H);
    click(&mut s);
    key(&mut s, Key::C);
    assert_eq!(key(&mut s, Key::Escape), VISIBLY);
    assert!(s.measure_lines_v.is_empty() && s.guides_h.is_empty() && s.undo_stack.is_empty());
    assert_eq!(s.mode, Mode::Color);
    assert_eq!(key(&mut s, Key::Escape), vec![Effect::Close]);
    key(&mut s, Key::D);
    assert_eq!(key(&mut s, Key::Escape), VISIBLY);
}

#[test]
fn escape_ends_a_drag() {
    let mut s = session();
    click(&mut s);
    assert_eq!(key(&mut s, Key::Escape), VISIBLY);
    assert!(!s.dragging && s.start.is_none());
    assert_eq!(s.released(), None);
}

#[test]
fn reset_leaves_nothing_in_any_mode() {
    let mut s = session();
    s.pin_measure_v(1, 2);
    key(&mut s, Key::D);
    key(&mut s, Key::C);
    assert_eq!(key(&mut s, Key::R), VISIBLY);
    assert_eq!(s.mode, Mode::Ruler);
    assert!(s.measure_lines_v.is_empty() && s.undo_stack.is_empty());
    assert!(!s.game.playing());
}

#[test]
fn undo_takes_back_the_last_pin() {
    let mut s = session();
    at(&mut s, 7, 9);
    shifted(&mut s, Key::H);
    click(&mut s);
    s.pin_measure_h(3, 12);
    shifted(&mut s, Key::V);
    click(&mut s);
    s.pin_measure_v(3, 12);
    select(&mut s, rect(1, 2, 30, 40));
    assert_eq!(undo(&mut s), VISIBLY);
    assert!(s.snapped_rects.is_empty());
    undo(&mut s);
    assert!(s.measure_lines_v.is_empty() && s.guides_v.len() == 1);
    undo(&mut s);
    assert!(s.guides_v.is_empty() && s.measure_lines_h.len() == 1);
    undo(&mut s);
    assert!(s.measure_lines_h.is_empty() && s.guides_h.len() == 1);
    undo(&mut s);
    assert!(s.guides_h.is_empty() && s.undo_stack.is_empty());
    assert_eq!(undo(&mut s), VISIBLY);
}

#[test]
fn z_needs_control() {
    let mut s = session();
    s.pin_measure_h(1, 2);
    let response = s.key_pressed(Key::Z, false, false, 0);
    assert!(!response.handled && response.effects.is_empty());
    assert_eq!(s.measure_lines_h.len(), 1);
}

#[test]
fn c_copies_a_selection_or_switches_to_color() {
    let mut s = session();
    assert_eq!(key(&mut s, Key::C), VISIBLY);
    assert_eq!(s.mode, Mode::Color);
    assert_eq!(key(&mut s, Key::C), VISIBLY);
    assert_eq!(s.mode, Mode::Ruler);
    select(&mut s, rect(1, 2, 30, 40));
    select(&mut s, rect(5, 6, 7, 8));
    assert_eq!(key(&mut s, Key::C), vec![Effect::CopySelection(rect(5, 6, 7, 8))]);
    assert_eq!(s.mode, Mode::Ruler);
}

#[test]
fn s_saves_only_a_selection() {
    let mut s = session();
    assert_eq!(key(&mut s, Key::S), vec![]);
    select(&mut s, rect(1, 2, 30, 40));
    assert_eq!(key(&mut s, Key::S), vec![Effect::SaveSelection(rect(1, 2, 30, 40))]);
}

#[test]
fn c_while_placing_a_guide_drops_the_selections() {
    let mut s = session();
    s.pin_measure_h(1, 2);
    select(&mut s, rect(1, 2, 30, 40));
    s.pin_measure_v(1, 2);
    select(&mut s, rect(3, 4, 30, 40));
    shifted(&mut s, Key::H);
    assert_eq!(key(&mut s, Key::C), VISIBLY);
    assert_eq!(s.mode, Mode::Ruler);
    assert!(s.snapped_rects.is_empty());
    assert_eq!(s.undo_stack, vec![UndoItem::MeasureH, UndoItem::MeasureV]);
    undo(&mut s);
    assert!(s.measure_lines_v.is_empty() && s.measure_lines_h.len() == 1);
    undo(&mut s);
    assert!(s.measure_lines_h.is_empty() && s.undo_stack.is_empty());
}

#[test]
fn color_click_copies_the_color() {
    let mut s = session();
    key(&mut s, Key::C);
    let effects = s.pressed(0, false, Some((1, 2, 3)));
    assert_eq!(effects, vec![Effect::CopyColor((1, 2, 3)), Effect::SyncCursor, Effect::Redraw]);
    assert_eq!(s.copied, Some((1, 2, 3)));
    assert_eq!(s.pressed(0, false, None), vec![Effect::SyncCursor, Effect::Redraw]);
    assert_eq!(s.copied, Some((1, 2, 3)));
    key(&mut s, Key::C);
    assert_eq!(s.copied, None);
}

#[test]
fn line_keys_do_nothing_in_color_mode() {
    let mut s = session();
    key(&mut s, Key::C);
    for shift in [false, true] {
        for k in [Key::H, Key::V] {
            let response = s.key_pressed(k, shift, false, 0);
            assert!(!response.handled && response.effects.is_empty());
        }
    }
    assert_eq!(s.mode, Mode::Color);
}

#[test]
fn click_on_the_size_readout_opens_the_selection() {
    let mut s = session();
    select(&mut s, rect(1, 2, 30, 40));
    s.set_hover_box(Some(rect(10, 10, 20, 20)));
    at(&mut s, 20, 10);
    assert_eq!(
        click(&mut s),
        vec![Effect::OpenSelection(rect(1, 2, 30, 40)), Effect::SyncCursor, Effect::Redraw],
    );
    assert!(!s.dragging);
    at(&mut s, 21, 10);
    click(&mut s);
    assert!(s.dragging);
}

#[test]
fn shift_shows_the_alignment_lines() {
    let mut s = session();
    let response = s.key_pressed(Key::Shift, false, false, 0);
    assert!(!response.handled);
    assert_eq!(response.effects, vec![Effect::Redraw]);
    assert_eq!(draw_list(&s, 100, 100, None), vec![DrawOp::AlignmentLines]);
    assert_eq!(s.key_released(Key::Shift), vec![Effect::Redraw]);
    assert_eq!(draw_list(&s, 100, 100, None), vec![DrawOp::Extent]);
    assert_eq!(s.key_released(Key::C), vec![]);
}

#[test]
fn arrows_nudge() {
    let mut s = session();
    assert_eq!(key(&mut s, Key::Up), vec![Effect::Nudge { dx: 0, dy: -1 }, Effect::Redraw]);
    assert_eq!(key(&mut s, Key::Right), vec![Effect::Nudge { dx: 1, dy: 0 }, Effect::Redraw]);
    assert_eq!(shifted(&mut s, Key::Down), vec![Effect::Nudge { dx: 0, dy: 10 }, Effect::Redraw]);
    assert_eq!(shifted(&mut s, Key::Left), vec![Effect::Nudge { dx: -10, dy: 0 }, Effect::Redraw]);
}

#[test]
fn other_keys_pass() {
    let mut s = session();
    let response = s.key_pressed(Key::Other, true, true, 0);
    assert!(!response.handled && response.effects.is_empty());
}

#[test]
fn nudged_cursor_stays_until_the_pointer_moves() {
    let mut s = session();
    let magnet = Point { x: 8, y: 8 };
    assert!(s.pointer_polled(Point { x: 5, y: 5 }, magnet));
    assert_eq!(s.cursor, magnet);
    assert!(s.move_cursor(Point { x: 9, y: 8 }));
    assert!(!s.pointer_polled(Point { x: 5, y: 5 }, magnet));
    assert_eq!(s.cursor, Point { x: 9, y: 8 });
    assert!(!s.move_cursor(Point { x: 9, y: 8 }));
    key(&mut s, Key::N);
    assert!(s.pointer_polled(Point { x: 4, y: 5 }, magnet));
    assert_eq!(s.cursor, Point { x: 4, y: 5 });
    assert_eq!(s.last_raw_cursor, Point { x: 4, y: 5 });
    key(&mut s, Key::N);
    assert!(!s.pointer_polled(Point { x: 6, y: 6 }, Point { x: 4, y: 5 }));
    assert_eq!(s.last_raw_cursor, Point { x: 6, y: 6 });
}

// Hints

#[test]
fn hints_follow_the_state() {
    let mut s = session();
    assert_eq!(legend_entries(&s).unwrap().len(), 8);
    assert_eq!(legend_entries(&s).unwrap()[0], ("drag", "select & snap"));
    select(&mut s, rect(1, 2, 30, 40));
    assert_eq!(legend_entries(&s).unwrap()[1], ("c", "copy"));
    assert_eq!(legend_entries(&s).unwrap().len(), 7);
    shifted(&mut s, Key::V);
    assert_eq!(legend_entries(&s).unwrap(), vec![("click", "place guide"), ("esc", "cancel")]);
    key(&mut s, Key::Escape);
    assert_eq!(key(&mut s, Key::L), vec![Effect::RefreshLegend, Effect::Redraw]);
    assert_eq!(legend_entries(&s), None);
    assert_eq!(refresh_legend(&s), Some(CardCall::Hide));
    key(&mut s, Key::L);
    assert!(legend_entries(&s).is_some());
}

#[test]
fn hints_are_hidden_in_color_mode() {
    let mut s = session();
    key(&mut s, Key::C);
    assert_eq!(legend_entries(&s), None);
}

#[test]
fn hint_card_arguments() {
    let mut s = session();
    shifted(&mut s, Key::H);
    let args: Vec<String> = ["-e", "click:place guide", "-e", "esc:cancel", "-c", "top-right"]
        .iter()
        .map(|a| a.to_string())
        .collect();
    assert_eq!(refresh_legend(&s), Some(CardCall::Show(args.clone())));
    assert_eq!(legend_args(&legend_entries(&s).unwrap()), args);
    assert_eq!(refresh_legend(&Session::new(false, 0)), None);
}

#[test]
fn cursor_follows_the_state() {
    let mut s = session();
    assert_eq!(cursor_name(&s), "none");
    shifted(&mut s, Key::H);
    assert_eq!(cursor_name(&s), "row-resize");
    shifted(&mut s, Key::V);
    assert_eq!(cursor_name(&s), "col-resize");
    key(&mut s, Key::Escape);
    select(&mut s, rect(1, 2, 30, 40));
    assert_eq!(cursor_name(&s), "default");
    undo(&mut s);
    key(&mut s, Key::C);
    assert_eq!(cursor_name(&s), "none");
}

#[test]
fn messages() {
    assert_eq!(message_text(Message::SnapOn), "Snap: On");
    assert_eq!(message_text(Message::SnapOff), "Snap: Off");
    assert_eq!(message_text(Message::Tolerance(2)), "Tolerance: Med");
    assert_eq!(message_text(Message::Missed(0)), "Missed! Score: 0");
    assert_eq!(message_text(Message::HighScore(12)), "🦆 High score: 12!");
    assert_eq!(message_text(Message::Quack(3)), "🦆 Quack! Score: 3");
    assert_eq!(message_text(Message::FinalScore(40)), "Final score: 40");
    assert_eq!(copied_text((255, 0, 16)), "copied #FF0010");
    assert_eq!(color_label((1, 2, 3)), "#010203  ·  click to copy  ·  esc: quit");
}

// What is drawn

#[test]
fn narrow_gaps_are_not_read_out() {
    let mut s = session();
    for y in [40, 42, 41, 40] {
        at(&mut s, 30, y);
        shifted(&mut s, Key::H);
        click(&mut s);
    }
    let drawn = draw_list_of(&s, 100, 90, None, |from, to| to - from, 2);
    assert_eq!(drawn[4..6], [DrawOp::GapH(0, 40), DrawOp::GapH(42, 90)]);
    assert_eq!(drawn.len(), 7);
    let drawn = draw_list(&s, 100, 90, None);
    assert_eq!(drawn[4..8], [
        DrawOp::GapH(0, 40),
        DrawOp::GapH(40, 41),
        DrawOp::GapH(41, 42),
        DrawOp::GapH(42, 90),
    ]);
}

#[test]
fn everything_pinned_is_drawn_in_order() {
    let mut s = session();
    at(&mut s, 30, 40);
    shifted(&mut s, Key::H);
    click(&mut s);
    shifted(&mut s, Key::V);
    click(&mut s);
    s.pin_measure_h(3, 12);
    s.pin_measure_v(4, 13);
    select(&mut s, rect(1, 2, 5, 6));
    select(&mut s, rect(7, 8, 9, 10));
    assert_eq!(draw_list(&s, 100, 90, None), vec![
        DrawOp::GuideH(40),
        DrawOp::GuideV(30),
        DrawOp::GapH(0, 40),
        DrawOp::GapH(40, 90),
        DrawOp::GapV(0, 30),
        DrawOp::GapV(30, 100),
        DrawOp::MeasureH(40, 3, 12),
        DrawOp::MeasureV(30, 4, 13),
        DrawOp::Selection { rect: rect(1, 2, 5, 6), interactive: false },
        DrawOp::Selection { rect: rect(7, 8, 9, 10), interactive: true },
        DrawOp::Extent,
    ]);
}

#[test]
fn drag_is_drawn_instead_of_the_measurement() {
    let mut s = session();
    at(&mut s, 30, 40);
    click(&mut s);
    at(&mut s, 20, 50);
    assert_eq!(draw_list(&s, 100, 90, None), vec![DrawOp::Drag(rect(20, 40, 30, 50))]);
}

#[test]
fn placed_guide_is_drawn_with_its_gaps() {
    let mut s = session();
    at(&mut s, 30, 40);
    shifted(&mut s, Key::H);
    click(&mut s);
    shifted(&mut s, Key::H);
    at(&mut s, 30, 10);
    assert_eq!(draw_list(&s, 100, 90, None), vec![
        DrawOp::GuideH(40),
        DrawOp::LiveGuideH(10),
        DrawOp::GapH(0, 10),
        DrawOp::GapH(10, 40),
        DrawOp::GapH(40, 90),
    ]);
    shifted(&mut s, Key::V);
    assert_eq!(draw_list(&s, 100, 90, None), vec![
        DrawOp::LiveGuideV(30),
        DrawOp::GapV(0, 30),
        DrawOp::GapV(30, 100),
    ]);
}

#[test]
fn color_mode_draws_the_loupe() {
    let mut s = Session::new(false, 0);
    key(&mut s, Key::C);
    assert_eq!(draw_list(&s, 100, 90, None), vec![DrawOp::Loupe]);
    assert_eq!(
        draw_list(&s, 100, 90, Some((1, 2, 3))),
        vec![DrawOp::Loupe, DrawOp::ColorLabel((1, 2, 3))],
    );
    s.pressed(0, false, Some((1, 2, 3)));
    assert_eq!(draw_list(&s, 100, 90, None), vec![DrawOp::Loupe, DrawOp::Copied((1, 2, 3))]);
}

#[test]
fn hint_card_is_drawn_where_the_desktop_has_none() {
    let mut s = Session::new(false, 0);
    assert_eq!(draw_list(&s, 100, 90, None), vec![DrawOp::Extent, DrawOp::Legend]);
    key(&mut s, Key::L);
    assert_eq!(draw_list(&s, 100, 90, None), vec![DrawOp::Extent]);
}

// Geometry

#[test]
fn rectangles_have_borders() {
    let r = rect(1, 2, 3, 4);
    assert!(point_in_rect(Point { x: 1, y: 4 }, r));
    assert!(!point_in_rect(Point { x: 0, y: 3 }, r));
    assert!(!point_in_rect(Point { x: 2, y: 5 }, r));
    assert!(!rects_overlap(r, rect(3, 2, 5, 4)));
    assert!(rects_overlap(r, rect(2, 3, 5, 9)) && rects_overlap(rect(2, 3, 5, 9), r));
    assert_eq!(
        drag_rect(Point { x: 5, y: 1 }, Point { x: 2, y: 9 }),
        drag_rect(Point { x: 2, y: 9 }, Point { x: 5, y: 1 }),
    );
}

#[test]
fn labels_step_aside() {
    let places: Vec<Rect> = (0..101).map(|i| rect(0, 10 * i, 8, 10 * i + 8)).collect();
    let mut occupied: Vec<Rect> = Vec::new();
    assert_eq!(place_label(&mut occupied, &places), Some(0));
    assert_eq!(place_label(&mut occupied, &places), Some(1));
    assert_eq!(occupied, vec![places[0], places[1]]);
    let mut full = vec![rect(-1, -1, 9, 999)];
    assert_eq!(place_label(&mut full, &places), Some(100));
    assert_eq!(full[1], places[100]);
    assert_eq!(place_label(&mut full, &places), None);
    assert_eq!(full.len(), 2);
    assert_eq!(place_label(&mut full, &vec![]), None);
}

#[test]
fn gaps_tile_the_screen() {
    assert_eq!(guide_gaps(&vec![], 100), vec![]);
    assert_eq!(guide_gaps(&vec![70, 20, 20], 100), vec![(0, 20), (20, 20), (20, 70), (70, 100)]);
    assert_eq!(guide_gaps(&vec![20, 70, 20], 100), guide_gaps(&vec![70, 20, 20], 100));
    assert_eq!(sorted_guides(&vec![3, -1, 2, 3]), vec![-1, 2, 3, 3]);
}

// The hunt

#[test]
fn random_numbers() {
    let mut rng = Rng::new(0);
    assert_eq!(rng.state, 1);
    assert_eq!(rng.next_u64(), 0x4082_2041);
    assert_eq!(rng.state, 0x4082_2041);
    let mut again = Rng::new(1);
    assert_eq!(again.next_fraction(), 0x4082_2041 >> 11);
    assert!(again.next_fraction() < 1 << 53);
}

#[test]
fn duck_is_shot_and_the_round_goes_on() {
    let mut s = Session::new(true, 1);
    let start = s.key_pressed(Key::D, false, false, 100);
    assert_eq!(start.effects, vec![Effect::SpawnDuck, Effect::Play(Sound::Chime), Effect::Redraw]);
    assert_eq!(
        s.game.duck,
        Some(DuckClock { spawned: 100, last_update: 100, next_turn: 100 + FIRST_TURN_DELAY }),
    );
    assert!(draw_list(&s, 100, 90, None).contains(&DrawOp::Duck));
    assert_eq!(s.pressed(200, true, None), vec![
        Effect::Play(Sound::Shot),
        Effect::Play(Sound::Quack),
        Effect::Flash(Message::Quack(1)),
        Effect::Redraw,
    ]);
    assert_eq!(s.respawn_duck(200 + DUCK_RESPAWN_DELAY - 1), vec![]);
    assert_eq!(s.respawn_duck(200 + DUCK_RESPAWN_DELAY), vec![Effect::SpawnDuck]);
    assert_eq!(s.game.score, 1);
    assert_eq!(s.pressed(300, true, None), vec![
        Effect::Play(Sound::Shot),
        Effect::SaveHighScore(2),
        Effect::Play(Sound::Quack),
        Effect::Flash(Message::HighScore(2)),
        Effect::Redraw,
    ]);
    assert_eq!((s.game.score, s.game.high_score), (2, 2));
}

#[test]
fn missed_shot_is_an_ordinary_click() {
    let mut s = session();
    key(&mut s, Key::D);
    assert_eq!(click(&mut s), vec![Effect::Play(Sound::Shot), Effect::SyncCursor, Effect::Redraw]);
    assert!(s.dragging && s.game.duck.is_some());
}

#[test]
fn escaped_duck_costs_the_score() {
    let mut s = session();
    key(&mut s, Key::D);
    s.pressed(0, true, None);
    s.respawn_duck(DUCK_RESPAWN_DELAY);
    let born = DUCK_RESPAWN_DELAY;
    let (flight, effects) = s.duck_frame(born + DUCK_LIFETIME - 1, false);
    assert_eq!(flight, Flight::Flies { nanos: LONGEST_STEP, turns: true });
    assert_eq!(effects, vec![Effect::Redraw]);
    let (flight, effects) = s.duck_frame(born + DUCK_LIFETIME, false);
    assert_eq!(flight, Flight::Escaped { score: 1 });
    assert_eq!(effects, vec![
        Effect::Play(Sound::Fail),
        Effect::Flash(Message::Missed(1)),
        Effect::Redraw,
    ]);
    assert!(s.game.waiting && s.game.score == 0);
    assert!(draw_list(&s, 100, 90, None).contains(&DrawOp::ContinuePrompt));
    assert_eq!(s.duck_frame(born + DUCK_LIFETIME + 1, false), (Flight::Nothing, vec![]));
    assert_eq!(click(&mut s), vec![Effect::SpawnDuck, Effect::Play(Sound::Chime), Effect::Redraw]);
    assert!(s.game.duck.is_some() && !s.game.waiting);
}

#[test]
fn duck_that_leaves_the_screen_escapes() {
    let mut g = Game::new(0);
    g.spawn(0);
    assert_eq!(g.frame(10, false), Flight::Flies { nanos: 10, turns: false });
    assert_eq!(g.frame(10 + FIRST_TURN_DELAY, false), Flight::Flies { nanos: LONGEST_STEP, turns: true });
    g.set_next_turn(1_000, 700);
    assert_eq!(g.duck.unwrap().next_turn, 700_001_000);
    assert_eq!(g.frame(FIRST_TURN_DELAY + 20, true), Flight::Escaped { score: 0 });
    assert_eq!(g.frame(FIRST_TURN_DELAY + 30, true), Flight::Nothing);
}

#[test]
fn d_ends_the_hunt_with_its_score() {
    let mut s = session();
    key(&mut s, Key::D);
    assert_eq!(key(&mut s, Key::D), vec![Effect::Redraw]);
    assert!(!s.game.playing());
    key(&mut s, Key::D);
    s.pressed(0, true, None);
    assert_eq!(key(&mut s, Key::D), vec![Effect::Flash(Message::FinalScore(1)), Effect::Redraw]);
    assert_eq!(s.game.score, 0);
}

#[test]
fn pause_after_a_kill_keeps_redrawing() {
    let mut s = session();
    key(&mut s, Key::D);
    s.pressed(0, true, None);
    assert_eq!(s.duck_frame(5, false), (Flight::Nothing, vec![Effect::Redraw]));
    s.turn_duck(0, 500);
    assert_eq!(s.game.duck, None);
}
