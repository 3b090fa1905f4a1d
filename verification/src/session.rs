//! The session: what is pinned on the screen, and what every input does to it.

use crate::duck::{Flight, Game, DUCK_RESPAWN_DELAY, FIRST_TURN_DELAY};
use crate::extent::{reaches, scan_extent, Direction};
use crate::geometry::{drag_rect, point_in_rect, spanned, Point, Rect};
use crate::screenshot::{Rgb, Screenshot};
use crate::shrink::{is_snapped, shrink_rect};
use vstd::prelude::*;

verus! {

#[derive(Clone, Copy, PartialEq, Eq, Structural, Debug)]
pub enum Mode {
    /// Measuring and selecting.
    Ruler,
    /// Picking a color.
    Color,
    /// Placing a horizontal guide, which follows the cursor until a click.
    GuideH,
    /// Placing a vertical guide.
    GuideV,
}

/// What kind of thing was pinned.
#[derive(Clone, Copy, PartialEq, Eq, Structural, Debug)]
pub enum UndoItem {
    Rect,
    GuideH,
    GuideV,
    MeasureH,
    MeasureV,
}

/// The keys that mean something; a letter stands for itself in either case.
#[derive(Clone, Copy, PartialEq, Eq, Structural, Debug)]
pub enum Key {
    Escape,
    C,
    S,
    N,
    R,
    Z,
    T,
    Minus,
    Equal,
    L,
    D,
    H,
    V,
    Shift,
    Up,
    Down,
    Left,
    Right,
    Other,
}

#[derive(Clone, Copy, PartialEq, Eq, Structural, Debug)]
pub enum Sound {
    Shot,
    Quack,
    Fail,
    Chime,
}

/// A status message.
#[derive(Clone, Copy, PartialEq, Eq, Structural, Debug)]
pub enum Message {
    SnapOn,
    SnapOff,
    /// The tolerance level that is now set.
    Tolerance(usize),
    Missed(u32),
    HighScore(u32),
    Quack(u32),
    FinalScore(u32),
}

/// What is left to do outside the session after an input, in this order.
#[derive(Clone, Copy, PartialEq, Eq, Debug)]
pub enum Effect {
    /// Show the mouse cursor that goes with the state.
    SyncCursor,
    /// Show the hints that go with the state.
    RefreshLegend,
    Redraw,
    /// End the session.
    Close,
    CopySelection(Rect),
    SaveSelection(Rect),
    /// Open the selection in the editor.
    OpenSelection(Rect),
    /// Copy a color, as text.
    CopyColor(Rgb),
    Flash(Message),
    Play(Sound),
    /// Put a new duck somewhere on the screen.
    SpawnDuck,
    SaveHighScore(u32),
    /// Measure at the cursor and pin the result.
    MeasureH,
    MeasureV,
    /// Move the cursor by whole pixels.
    Nudge { dx: i64, dy: i64 },
}

/// How many tolerance levels there are.
pub const TOLERANCE_LEVELS: usize = 4;

/// The level that a session starts at.
pub const DEFAULT_TOLERANCE_LEVEL: usize = 3;

/// The tolerance of a level, per channel.
pub open spec fn tolerance_of(level: int) -> u8 {
    if level == 0 {
        0
    } else if level == 1 {
        10
    } else if level == 2 {
        24
    } else {
        48
    }
}

/// The tolerance of a level, per channel.
pub fn tolerance(level: usize) -> (r: u8)
    requires
        level < TOLERANCE_LEVELS,
    ensures
        r == tolerance_of(level as int),
{
    if level == 0 {
        0
    } else if level == 1 {
        10
    } else if level == 2 {
        24
    } else {
        48
    }
}

/// A session. Coordinates are those of the screen, as the geometry module takes them.
pub struct Session {
    pub cursor: Point,
    /// Where the pointer was when it was last looked at, before any snapping. It tells a moved
    /// mouse from a nudged cursor.
    pub last_raw_cursor: Point,
    pub mode: Mode,
    pub dragging: bool,
    pub start: Option<Point>,
    pub snapped_rects: Vec<Rect>,
    /// Where the size readout of the last selection is drawn.
    pub hover_box: Option<Rect>,
    pub snap_enabled: bool,
    pub tolerance_level: usize,
    pub show_legend: bool,
    /// Whether the desktop shows the hints for us.
    pub legend_available: bool,
    pub shift_held: bool,
    /// Pinned horizontal lines: height, left end, right end.
    pub measure_lines_h: Vec<(i64, i64, i64)>,
    /// Pinned vertical lines: column, top end, bottom end.
    pub measure_lines_v: Vec<(i64, i64, i64)>,
    pub guides_h: Vec<i64>,
    pub guides_v: Vec<i64>,
    /// The kinds of all things pinned, in order.
    pub undo_stack: Vec<UndoItem>,
    /// The color that was copied last.
    pub copied: Option<Rgb>,
    pub game: Game,
}

#[verifier::ext_equal]
pub struct SessionView {
    pub cursor: Point,
    pub last_raw_cursor: Point,
    pub mode: Mode,
    pub dragging: bool,
    pub start: Option<Point>,
    pub snapped_rects: Seq<Rect>,
    pub hover_box: Option<Rect>,
    pub snap_enabled: bool,
    pub tolerance_level: int,
    pub show_legend: bool,
    pub legend_available: bool,
    pub shift_held: bool,
    pub measure_lines_h: Seq<(i64, i64, i64)>,
    pub measure_lines_v: Seq<(i64, i64, i64)>,
    pub guides_h: Seq<i64>,
    pub guides_v: Seq<i64>,
    pub undo_stack: Seq<UndoItem>,
    pub copied: Option<Rgb>,
    pub game: Game,
}

impl View for Session {
    type V = SessionView;

    open spec fn view(&self) -> SessionView {
        SessionView {
            cursor: self.cursor,
            last_raw_cursor: self.last_raw_cursor,
            mode: self.mode,
            dragging: self.dragging,
            start: self.start,
            snapped_rects: self.snapped_rects@,
            hover_box: self.hover_box,
            snap_enabled: self.snap_enabled,
            tolerance_level: self.tolerance_level as int,
            show_legend: self.show_legend,
            legend_available: self.legend_available,
            shift_held: self.shift_held,
            measure_lines_h: self.measure_lines_h@,
            measure_lines_v: self.measure_lines_v@,
            guides_h: self.guides_h@,
            guides_v: self.guides_v@,
            undo_stack: self.undo_stack@,
            copied: self.copied,
            game: self.game,
        }
    }
}

/// How often `kind` occurs.
pub open spec fn occurrences(s: Seq<UndoItem>, kind: UndoItem) -> int
    decreases s.len(),
{
    if s.len() == 0 {
        0
    } else {
        occurrences(s.drop_last(), kind) + if s.last() == kind {
            1int
        } else {
            0
        }
    }
}

/// The kinds of what stays pinned when all selections go, in order.
pub open spec fn without_selections(s: Seq<UndoItem>) -> Seq<UndoItem> {
    s.filter(|item: UndoItem| item !is Rect)
}

/// `s` without its last element, if it has one.
pub open spec fn popped<A>(s: Seq<A>) -> Seq<A> {
    if s.len() == 0 {
        s
    } else {
        s.drop_last()
    }
}

/// What an input leads to: the next state, what is left to do, and whether the input is used
/// up.
pub struct Step {
    pub next: SessionView,
    pub effects: Seq<Effect>,
    pub handled: bool,
}

impl SessionView {
    /// The tolerance level exists, a drag has a start and nothing else has, color picking has
    /// no selections, and the undo stack holds what is pinned and nothing else.
    pub open spec fn inv(self) -> bool {
        &&& 0 <= self.tolerance_level < TOLERANCE_LEVELS
        &&& self.dragging == (self.start is Some)
        &&& self.mode is Color ==> self.snapped_rects.len() == 0
        &&& self.snapped_rects.len() == occurrences(self.undo_stack, UndoItem::Rect)
        &&& self.guides_h.len() == occurrences(self.undo_stack, UndoItem::GuideH)
        &&& self.guides_v.len() == occurrences(self.undo_stack, UndoItem::GuideV)
        &&& self.measure_lines_h.len() == occurrences(self.undo_stack, UndoItem::MeasureH)
        &&& self.measure_lines_v.len() == occurrences(self.undo_stack, UndoItem::MeasureV)
        &&& self.game.inv()
    }

    pub open spec fn placing_guide(self) -> bool {
        self.mode is GuideH || self.mode is GuideV
    }

    /// Whether there is a drag, anything pinned, or a hunt for Escape to clear.
    pub open spec fn has_anything(self) -> bool {
        ||| self.game.in_round()
        ||| self.dragging
        ||| self.snapped_rects.len() > 0
        ||| self.guides_h.len() > 0
        ||| self.guides_v.len() > 0
        ||| self.measure_lines_h.len() > 0
        ||| self.measure_lines_v.len() > 0
    }

    /// Nothing pinned, no drag and no hunt.
    pub open spec fn cleared(self) -> SessionView {
        SessionView {
            dragging: false,
            start: None,
            snapped_rects: seq![],
            guides_h: seq![],
            guides_v: seq![],
            measure_lines_h: seq![],
            measure_lines_v: seq![],
            undo_stack: seq![],
            game: self.game.stopped(),
            ..self
        }
    }

    /// The last thing pinned is taken off again.
    pub open spec fn undone(self) -> SessionView {
        if self.undo_stack.len() == 0 {
            self
        } else {
            let rest = SessionView { undo_stack: self.undo_stack.drop_last(), ..self };
            match self.undo_stack.last() {
                UndoItem::Rect => SessionView { snapped_rects: popped(self.snapped_rects), ..rest },
                UndoItem::GuideH => SessionView { guides_h: popped(self.guides_h), ..rest },
                UndoItem::GuideV => SessionView { guides_v: popped(self.guides_v), ..rest },
                UndoItem::MeasureH => SessionView {
                    measure_lines_h: popped(self.measure_lines_h),
                    ..rest
                },
                UndoItem::MeasureV => SessionView {
                    measure_lines_v: popped(self.measure_lines_v),
                    ..rest
                },
            }
        }
    }

    pub open spec fn with_selection(self, rect: Rect) -> SessionView {
        SessionView {
            snapped_rects: self.snapped_rects.push(rect),
            undo_stack: self.undo_stack.push(UndoItem::Rect),
            ..self
        }
    }

    /// A horizontal guide at the height of the cursor.
    pub open spec fn with_guide_h(self) -> SessionView {
        SessionView {
            guides_h: self.guides_h.push(self.cursor.y),
            undo_stack: self.undo_stack.push(UndoItem::GuideH),
            ..self
        }
    }

    pub open spec fn with_guide_v(self) -> SessionView {
        SessionView {
            guides_v: self.guides_v.push(self.cursor.x),
            undo_stack: self.undo_stack.push(UndoItem::GuideV),
            ..self
        }
    }

    /// A horizontal measure line at the height of the cursor.
    pub open spec fn with_measure_h(self, left: i64, right: i64) -> SessionView {
        SessionView {
            measure_lines_h: self.measure_lines_h.push((self.cursor.y, left, right)),
            undo_stack: self.undo_stack.push(UndoItem::MeasureH),
            ..self
        }
    }

    pub open spec fn with_measure_v(self, top: i64, bottom: i64) -> SessionView {
        SessionView {
            measure_lines_v: self.measure_lines_v.push((self.cursor.x, top, bottom)),
            undo_stack: self.undo_stack.push(UndoItem::MeasureV),
            ..self
        }
    }

    pub open spec fn with_mode(self, mode: Mode) -> SessionView {
        SessionView { mode, ..self }
    }

    /// Whether a selection is there to be copied or saved.
    pub open spec fn has_selection(self) -> bool {
        self.mode is Ruler && self.snapped_rects.len() > 0
    }

    /// The state stays, and the input goes on to whoever else wants it.
    pub open spec fn ignored(self) -> Step {
        Step { next: self, effects: seq![], handled: false }
    }

    /// A change that shows in the cursor and in the hints.
    pub open spec fn visibly(next: SessionView) -> Step {
        Step {
            next,
            effects: seq![Effect::SyncCursor, Effect::RefreshLegend, Effect::Redraw],
            handled: true,
        }
    }

    /// Escape: leave guide placement, else clear everything, else end the session.
    pub open spec fn escape(self) -> Step {
        if self.placing_guide() {
            SessionView::visibly(self.with_mode(Mode::Ruler))
        } else if self.has_anything() {
            SessionView::visibly(self.cleared())
        } else {
            Step { next: self, effects: seq![Effect::Close], handled: true }
        }
    }

    /// C: copy the selection, else switch between measuring and color picking. A guide that is
    /// being placed is given up, and the selections with it.
    pub open spec fn copy_or_color(self) -> Step {
        if self.has_selection() {
            Step {
                next: self,
                effects: seq![Effect::CopySelection(self.snapped_rects.last())],
                handled: true,
            }
        } else {
            SessionView::visibly(
                SessionView {
                    mode: if self.mode is Ruler {
                        Mode::Color
                    } else {
                        Mode::Ruler
                    },
                    dragging: false,
                    start: None,
                    snapped_rects: seq![],
                    undo_stack: without_selections(self.undo_stack),
                    copied: None,
                    ..self
                },
            )
        }
    }

    /// S: save the selection.
    pub open spec fn save(self) -> Step {
        Step {
            next: self,
            effects: if self.has_selection() {
                seq![Effect::SaveSelection(self.snapped_rects.last())]
            } else {
                seq![]
            },
            handled: true,
        }
    }

    /// A new tolerance level is announced.
    pub open spec fn at_tolerance(self, level: int) -> Step {
        Step {
            next: SessionView { tolerance_level: level, ..self },
            effects: seq![Effect::Flash(Message::Tolerance(level as usize)), Effect::Redraw],
            handled: true,
        }
    }

    /// D: start a hunt, or end the one that is on and announce its score if there is one.
    pub open spec fn hunt(self, now: u64) -> Step {
        if self.game.in_round() {
            Step {
                next: SessionView { game: self.game.stopped(), ..self },
                effects: if self.game.score > 0 {
                    seq![Effect::Flash(Message::FinalScore(self.game.score)), Effect::Redraw]
                } else {
                    seq![Effect::Redraw]
                },
                handled: true,
            }
        } else {
            Step {
                next: SessionView { game: self.game.stopped().with_duck(now), ..self },
                effects: seq![Effect::SpawnDuck, Effect::Play(Sound::Chime), Effect::Redraw],
                handled: true,
            }
        }
    }

    /// H and V: pin a measure line, or with Shift start placing a guide.
    pub open spec fn line_key(self, shift: bool, guide: Mode, measure: Effect) -> Step {
        if shift {
            if self.mode is Color {
                self.ignored()
            } else {
                SessionView::visibly(self.with_mode(guide))
            }
        } else if self.mode is Ruler {
            Step { next: self, effects: seq![measure, Effect::Redraw], handled: true }
        } else {
            self.ignored()
        }
    }

    /// An arrow: one pixel, or ten with Shift.
    pub open spec fn nudge(self, dx: int, dy: int, shift: bool) -> Step {
        let step: int = if shift {
            10
        } else {
            1
        };
        Step {
            next: self,
            effects: seq![
                Effect::Nudge { dx: (dx * step) as i64, dy: (dy * step) as i64 },
                Effect::Redraw,
            ],
            handled: true,
        }
    }

    /// What a key does.
    pub open spec fn key(self, key: Key, shift: bool, ctrl: bool, now: u64) -> Step {
        match key {
            Key::Escape => self.escape(),
            Key::C => self.copy_or_color(),
            Key::S => self.save(),
            Key::N => Step {
                next: SessionView { snap_enabled: !self.snap_enabled, ..self },
                effects: seq![
                    Effect::Flash(
                        if self.snap_enabled {
                            Message::SnapOff
                        } else {
                            Message::SnapOn
                        },
                    ),
                    Effect::Redraw,
                ],
                handled: true,
            },
            Key::R => SessionView::visibly(self.cleared().with_mode(Mode::Ruler)),
            Key::Z => if ctrl {
                SessionView::visibly(self.undone())
            } else {
                self.ignored()
            },
            Key::T => self.at_tolerance((self.tolerance_level + 1) % 4),
            Key::Minus => self.at_tolerance(
                if self.tolerance_level > 0 {
                    self.tolerance_level - 1
                } else {
                    0
                },
            ),
            Key::Equal => self.at_tolerance(
                if self.tolerance_level < 3 {
                    self.tolerance_level + 1
                } else {
                    3
                },
            ),
            Key::L => Step {
                next: SessionView { show_legend: !self.show_legend, ..self },
                effects: seq![Effect::RefreshLegend, Effect::Redraw],
                handled: true,
            },
            Key::D => self.hunt(now),
            Key::H => self.line_key(shift, Mode::GuideH, Effect::MeasureH),
            Key::V => self.line_key(shift, Mode::GuideV, Effect::MeasureV),
            Key::Shift => Step {
                next: SessionView { shift_held: true, ..self },
                effects: seq![Effect::Redraw],
                handled: false,
            },
            Key::Up => self.nudge(0, -1, shift),
            Key::Down => self.nudge(0, 1, shift),
            Key::Left => self.nudge(-1, 0, shift),
            Key::Right => self.nudge(1, 0, shift),
            Key::Other => self.ignored(),
        }
    }

    /// Whether a click would open the last selection in the editor.
    pub open spec fn over_open_button(self) -> bool {
        self.snapped_rects.len() > 0 && self.hover_box is Some && self.hover_box->0.contains(
            self.cursor,
        )
    }

    /// What a click does where no duck is concerned: the state, and what comes before the
    /// cursor is synced and the screen redrawn.
    pub open spec fn click(self, pixel: Option<Rgb>) -> (SessionView, Seq<Effect>) {
        match self.mode {
            Mode::Ruler => if self.over_open_button() {
                (self, seq![Effect::OpenSelection(self.snapped_rects.last())])
            } else {
                (SessionView { start: Some(self.cursor), dragging: true, ..self }, seq![])
            },
            Mode::Color => match pixel {
                Some(c) => (
                    SessionView { copied: Some(c), ..self },
                    seq![Effect::CopyColor(c)],
                ),
                None => (self, seq![]),
            },
            Mode::GuideH => (
                self.with_guide_h().with_mode(Mode::Ruler),
                seq![Effect::RefreshLegend],
            ),
            Mode::GuideV => (
                self.with_guide_v().with_mode(Mode::Ruler),
                seq![Effect::RefreshLegend],
            ),
        }
    }

    /// What a press of the mouse button does. `hit` says whether the duck, if there is one, is
    /// under the cursor, and `pixel` is the color there.
    pub open spec fn press(self, now: u64, hit: bool, pixel: Option<Rgb>) -> (
        SessionView,
        Seq<Effect>,
    ) {
        let shot: Seq<Effect> = if self.game.duck is Some {
            seq![Effect::Play(Sound::Shot)]
        } else {
            seq![]
        };
        if self.game.waiting {
            (
                SessionView { game: self.game.with_duck(now), ..self },
                seq![Effect::SpawnDuck, Effect::Play(Sound::Chime), Effect::Redraw],
            )
        } else if self.game.duck is Some && hit {
            let game = self.game.after_hit(now);
            let news: Seq<Effect> = if game.score > self.game.high_score {
                seq![
                    Effect::SaveHighScore(game.score),
                    Effect::Play(Sound::Quack),
                    Effect::Flash(Message::HighScore(game.score)),
                ]
            } else {
                seq![Effect::Play(Sound::Quack), Effect::Flash(Message::Quack(game.score))]
            };
            (SessionView { game, ..self }, shot + news + seq![Effect::Redraw])
        } else {
            let (next, effects) = self.click(pixel);
            (next, shot + effects + seq![Effect::SyncCursor, Effect::Redraw])
        }
    }

    /// Whether a release ends a drag, and the state after it.
    pub open spec fn released(self) -> SessionView {
        if self.mode is Ruler && self.dragging {
            SessionView { dragging: false, start: None, ..self }
        } else {
            self
        }
    }

    /// The rectangle that a release leaves dragged out, if it ends a drag.
    pub open spec fn dragged_out(self) -> Option<Rect> {
        match self.start {
            Some(start) => if self.mode is Ruler && self.dragging {
                Some(spanned(start, self.cursor))
            } else {
                None
            },
            None => None,
        }
    }

    /// The state once a drag has come to an end, with the selection it leaves, if any.
    pub open spec fn settled(self, selected: Option<Rect>) -> SessionView {
        match selected {
            Some(rect) => self.with_selection(rect),
            None => self,
        }
    }

    /// What is left to do when the mouse button has been released.
    pub open spec fn release_effects(selected: Option<Rect>) -> Seq<Effect> {
        if selected is Some {
            seq![Effect::RefreshLegend, Effect::SyncCursor, Effect::Redraw]
        } else {
            seq![Effect::SyncCursor, Effect::Redraw]
        }
    }

    /// Where the cursor is once the pointer has been seen at `raw`, which the magnet pulls to
    /// `magnet`: only a pointer that has moved takes the cursor along, and the magnet pulls only
    /// while snapping is on.
    pub open spec fn cursor_after_poll(self, raw: Point, magnet: Point) -> Point {
        if raw == self.last_raw_cursor {
            self.cursor
        } else if self.snap_enabled {
            magnet
        } else {
            raw
        }
    }

    /// The state once the pointer has been seen at `raw`.
    pub open spec fn polled(self, raw: Point, magnet: Point) -> SessionView {
        SessionView {
            cursor: self.cursor_after_poll(raw, magnet),
            last_raw_cursor: raw,
            ..self
        }
    }

    /// What is left to do after a frame of the hunt.
    pub open spec fn frame_effects(self, now: u64, offscreen: bool) -> Seq<Effect> {
        match self.game.flight(now, offscreen) {
            Flight::Escaped { score } => seq![
                Effect::Play(Sound::Fail),
                Effect::Flash(Message::Missed(score)),
                Effect::Redraw,
            ],
            Flight::Flies { nanos, turns } => seq![Effect::Redraw],
            Flight::Nothing => if self.game.next_spawn is Some {
                seq![Effect::Redraw]
            } else {
                seq![]
            },
        }
    }
}

/// What is left to do after a key, and whether the key is used up.
pub struct KeyResponse {
    pub effects: Vec<Effect>,
    pub handled: bool,
}

impl Session {
    pub open spec fn inv(&self) -> bool {
        self@.inv()
    }

    /// A session with nothing pinned.
    pub fn new(legend_available: bool, high_score: u32) -> (r: Session)
        ensures
            r.inv(),
            r@ == (SessionView {
                cursor: Point { x: 0, y: 0 },
                last_raw_cursor: Point { x: 0, y: 0 },
                mode: Mode::Ruler,
                dragging: false,
                start: None,
                snapped_rects: seq![],
                hover_box: None,
                snap_enabled: true,
                tolerance_level: 3,
                show_legend: true,
                legend_available,
                shift_held: false,
                measure_lines_h: seq![],
                measure_lines_v: seq![],
                guides_h: seq![],
                guides_v: seq![],
                undo_stack: seq![],
                copied: None,
                game: Game { duck: None, next_spawn: None, waiting: false, score: 0, high_score },
            }),
    {
        Session {
            cursor: Point { x: 0, y: 0 },
            last_raw_cursor: Point { x: 0, y: 0 },
            mode: Mode::Ruler,
            dragging: false,
            start: None,
            snapped_rects: Vec::new(),
            hover_box: None,
            snap_enabled: true,
            tolerance_level: DEFAULT_TOLERANCE_LEVEL,
            show_legend: true,
            legend_available,
            shift_held: false,
            measure_lines_h: Vec::new(),
            measure_lines_v: Vec::new(),
            guides_h: Vec::new(),
            guides_v: Vec::new(),
            undo_stack: Vec::new(),
            copied: None,
            game: Game::new(high_score),
        }
    }

    /// Clears the drag, everything pinned and the hunt.
    fn clear(&mut self)
        requires
            old(self).inv(),
        ensures
            final(self)@ == old(self)@.cleared(),
            final(self).inv(),
    {
        self.dragging = false;
        self.start = None;
        self.snapped_rects.clear();
        self.guides_h.clear();
        self.guides_v.clear();
        self.measure_lines_h.clear();
        self.measure_lines_v.clear();
        self.undo_stack.clear();
        self.game.stop();
    }

    /// Takes the last thing pinned off again.
    pub fn undo(&mut self)
        requires
            old(self).inv(),
        ensures
            final(self)@ == old(self)@.undone(),
            final(self).inv(),
    {
        proof {
            lemma_occurrences(self.undo_stack@);
        }
        if let Some(item) = self.undo_stack.pop() {
            proof {
                lemma_occurrences(self.undo_stack@);
            }
            match item {
                UndoItem::Rect => {
                    let _ = self.snapped_rects.pop();
                },
                UndoItem::GuideH => {
                    let _ = self.guides_h.pop();
                },
                UndoItem::GuideV => {
                    let _ = self.guides_v.pop();
                },
                UndoItem::MeasureH => {
                    let _ = self.measure_lines_h.pop();
                },
                UndoItem::MeasureV => {
                    let _ = self.measure_lines_v.pop();
                },
            }
        }
    }

    fn visible_change() -> (r: Vec<Effect>)
        ensures
            r@ == seq![Effect::SyncCursor, Effect::RefreshLegend, Effect::Redraw],
    {
        let mut out: Vec<Effect> = Vec::new();
        out.push(Effect::SyncCursor);
        out.push(Effect::RefreshLegend);
        out.push(Effect::Redraw);
        out
    }

    fn two(first: Effect, second: Effect) -> (r: Vec<Effect>)
        ensures
            r@ == seq![first, second],
    {
        let mut out: Vec<Effect> = Vec::new();
        out.push(first);
        out.push(second);
        out
    }

    fn press_escape(&mut self) -> (r: Vec<Effect>)
        requires
            old(self).inv(),
        ensures
            final(self)@ == old(self)@.escape().next,
            r@ == old(self)@.escape().effects,
            final(self).inv(),
    {
        if self.mode == Mode::GuideH || self.mode == Mode::GuideV {
            self.mode = Mode::Ruler;
            return Session::visible_change();
        }
        let has_anything: bool = self.game.playing() || self.dragging || self.snapped_rects.len()
            > 0 || self.guides_h.len() > 0 || self.guides_v.len() > 0 || self.measure_lines_h.len()
            > 0 || self.measure_lines_v.len() > 0;
        if has_anything {
            self.clear();
            Session::visible_change()
        } else {
            let mut out: Vec<Effect> = Vec::new();
            out.push(Effect::Close);
            out
        }
    }

    /// Takes all selections off.
    fn drop_selections(&mut self)
        requires
            old(self).inv(),
        ensures
            final(self)@ == (SessionView {
                snapped_rects: seq![],
                undo_stack: without_selections(old(self)@.undo_stack),
                ..old(self)@
            }),
            final(self).inv(),
    {
        let ghost all = self.undo_stack@;
        let ghost keep = |item: UndoItem| item !is Rect;
        let mut kept: Vec<UndoItem> = Vec::new();
        let mut i: usize = 0;
        proof {
            reveal(Seq::filter);
            assert(all.take(0).filter(keep) =~= seq![]);
        }
        while i < self.undo_stack.len()
            invariant
                i <= all.len(),
                self@ == old(self)@,
                all == self.undo_stack@,
                keep == (|item: UndoItem| item !is Rect),
                kept@ == all.take(i as int).filter(keep),
            decreases all.len() - i,
        {
            let item = self.undo_stack[i];
            if item != UndoItem::Rect {
                kept.push(item);
            }
            i = i + 1;
            proof {
                reveal(Seq::filter);
                assert(all.take(i as int).drop_last() =~= all.take(i - 1));
                assert(all.take(i as int).last() == item);
            }
        }
        proof {
            assert(all.take(i as int) =~= all);
            lemma_without_selections(all);
        }
        self.snapped_rects.clear();
        self.undo_stack = kept;
    }

    fn press_c(&mut self) -> (r: Vec<Effect>)
        requires
            old(self).inv(),
        ensures
            final(self)@ == old(self)@.copy_or_color().next,
            r@ == old(self)@.copy_or_color().effects,
            final(self).inv(),
    {
        if self.mode == Mode::Ruler && self.snapped_rects.len() > 0 {
            let mut out: Vec<Effect> = Vec::new();
            out.push(Effect::CopySelection(self.snapped_rects[self.snapped_rects.len() - 1]));
            return out;
        }
        self.drop_selections();
        self.mode = if self.mode == Mode::Ruler {
            Mode::Color
        } else {
            Mode::Ruler
        };
        self.dragging = false;
        self.start = None;
        self.copied = None;
        Session::visible_change()
    }

    fn press_d(&mut self, now: u64) -> (r: Vec<Effect>)
        requires
            old(self).inv(),
            now + FIRST_TURN_DELAY <= u64::MAX,
        ensures
            final(self)@ == old(self)@.hunt(now).next,
            r@ == old(self)@.hunt(now).effects,
            final(self).inv(),
    {
        let mut out: Vec<Effect> = Vec::new();
        if self.game.playing() {
            if self.game.score > 0 {
                out.push(Effect::Flash(Message::FinalScore(self.game.score)));
            }
            self.game.stop();
        } else {
            self.game.stop();
            self.game.spawn(now);
            out.push(Effect::SpawnDuck);
            out.push(Effect::Play(Sound::Chime));
        }
        out.push(Effect::Redraw);
        out
    }

    fn press_line_key(&mut self, shift: bool, guide: Mode, measure: Effect) -> (r: KeyResponse)
        requires
            old(self).inv(),
            guide !is Color,
        ensures
            final(self)@ == old(self)@.line_key(shift, guide, measure).next,
            r.effects@ == old(self)@.line_key(shift, guide, measure).effects,
            r.handled == old(self)@.line_key(shift, guide, measure).handled,
            final(self).inv(),
    {
        if shift {
            if self.mode == Mode::Color {
                return KeyResponse { effects: Vec::new(), handled: false };
            }
            self.mode = guide;
            KeyResponse { effects: Session::visible_change(), handled: true }
        } else {
            if self.mode != Mode::Ruler {
                return KeyResponse { effects: Vec::new(), handled: false };
            }
            KeyResponse { effects: Session::two(measure, Effect::Redraw), handled: true }
        }
    }

    fn set_tolerance(&mut self, level: usize) -> (r: Vec<Effect>)
        requires
            old(self).inv(),
            level < TOLERANCE_LEVELS,
        ensures
            final(self)@ == old(self)@.at_tolerance(level as int).next,
            r@ == old(self)@.at_tolerance(level as int).effects,
            final(self).inv(),
    {
        self.tolerance_level = level;
        Session::two(Effect::Flash(Message::Tolerance(level)), Effect::Redraw)
    }

    fn nudge_effects(dx: i64, dy: i64, shift: bool) -> (r: Vec<Effect>)
        requires
            -1 <= dx <= 1,
            -1 <= dy <= 1,
        ensures
            forall|s: SessionView| r@ == #[trigger] s.nudge(dx as int, dy as int, shift).effects,
    {
        let step: i64 = if shift {
            10
        } else {
            1
        };
        Session::two(Effect::Nudge { dx: dx * step, dy: dy * step }, Effect::Redraw)
    }

    /// Takes a key press at `now`.
    pub fn key_pressed(&mut self, key: Key, shift: bool, ctrl: bool, now: u64) -> (r: KeyResponse)
        requires
            old(self).inv(),
            now + FIRST_TURN_DELAY <= u64::MAX,
        ensures
            final(self)@ == old(self)@.key(key, shift, ctrl, now).next,
            r.effects@ == old(self)@.key(key, shift, ctrl, now).effects,
            r.handled == old(self)@.key(key, shift, ctrl, now).handled,
            final(self).inv(),
    {
        let effects: Vec<Effect> = match key {
            Key::Escape => self.press_escape(),
            Key::C => self.press_c(),
            Key::S => {
                let mut out: Vec<Effect> = Vec::new();
                if self.mode == Mode::Ruler && self.snapped_rects.len() > 0 {
                    let last = self.snapped_rects[self.snapped_rects.len() - 1];
                    out.push(Effect::SaveSelection(last));
                }
                out
            },
            Key::N => {
                self.snap_enabled = !self.snap_enabled;
                let message = if self.snap_enabled {
                    Message::SnapOn
                } else {
                    Message::SnapOff
                };
                Session::two(Effect::Flash(message), Effect::Redraw)
            },
            Key::R => {
                self.clear();
                self.mode = Mode::Ruler;
                Session::visible_change()
            },
            Key::Z => {
                if !ctrl {
                    return KeyResponse { effects: Vec::new(), handled: false };
                }
                self.undo();
                Session::visible_change()
            },
            Key::T => self.set_tolerance((self.tolerance_level + 1) % TOLERANCE_LEVELS),
            Key::Minus => {
                let level: usize = if self.tolerance_level > 0 {
                    self.tolerance_level - 1
                } else {
                    0
                };
                self.set_tolerance(level)
            },
            Key::Equal => {
                let level: usize = if self.tolerance_level < TOLERANCE_LEVELS - 1 {
                    self.tolerance_level + 1
                } else {
                    TOLERANCE_LEVELS - 1
                };
                self.set_tolerance(level)
            },
            Key::L => {
                self.show_legend = !self.show_legend;
                Session::two(Effect::RefreshLegend, Effect::Redraw)
            },
            Key::D => self.press_d(now),
            Key::H => return self.press_line_key(shift, Mode::GuideH, Effect::MeasureH),
            Key::V => return self.press_line_key(shift, Mode::GuideV, Effect::MeasureV),
            Key::Shift => {
                self.shift_held = true;
                let mut out: Vec<Effect> = Vec::new();
                out.push(Effect::Redraw);
                return KeyResponse { effects: out, handled: false };
            },
            Key::Up => Session::nudge_effects(0, -1, shift),
            Key::Down => Session::nudge_effects(0, 1, shift),
            Key::Left => Session::nudge_effects(-1, 0, shift),
            Key::Right => Session::nudge_effects(1, 0, shift),
            Key::Other => return KeyResponse { effects: Vec::new(), handled: false },
        };
        KeyResponse { effects, handled: true }
    }

    /// Takes a key release. Only that of Shift means anything.
    pub fn key_released(&mut self, key: Key) -> (r: Vec<Effect>)
        requires
            old(self).inv(),
        ensures
            final(self)@ == (if key is Shift {
                SessionView { shift_held: false, ..old(self)@ }
            } else {
                old(self)@
            }),
            r@ == (if key is Shift {
                seq![Effect::Redraw]
            } else {
                seq![]
            }),
            final(self).inv(),
    {
        let mut out: Vec<Effect> = Vec::new();
        if key == Key::Shift {
            self.shift_held = false;
            out.push(Effect::Redraw);
        }
        out
    }

    /// Does what a click does where no duck is concerned.
    fn clicked(&mut self, pixel: Option<Rgb>, out: &mut Vec<Effect>)
        requires
            old(self).inv(),
        ensures
            final(self)@ == old(self)@.click(pixel).0,
            final(out)@ == old(out)@ + old(self)@.click(pixel).1,
            final(self).inv(),
    {
        match self.mode {
            Mode::Ruler => {
                let over: bool = self.snapped_rects.len() > 0 && match self.hover_box {
                    Some(hover) => point_in_rect(self.cursor, hover),
                    None => false,
                };
                if over {
                    let last = self.snapped_rects[self.snapped_rects.len() - 1];
                    out.push(Effect::OpenSelection(last));
                } else {
                    self.start = Some(self.cursor);
                    self.dragging = true;
                }
            },
            Mode::Color => {
                if let Some(c) = pixel {
                    out.push(Effect::CopyColor(c));
                    self.copied = Some(c);
                }
            },
            Mode::GuideH => {
                self.guides_h.push(self.cursor.y);
                self.push_undo(UndoItem::GuideH);
                self.mode = Mode::Ruler;
                out.push(Effect::RefreshLegend);
            },
            Mode::GuideV => {
                self.guides_v.push(self.cursor.x);
                self.push_undo(UndoItem::GuideV);
                self.mode = Mode::Ruler;
                out.push(Effect::RefreshLegend);
            },
        }
        assert(out@ =~= old(out)@ + old(self)@.click(pixel).1);
    }

    /// Counts a kill.
    fn killed(&mut self, now: u64) -> (r: Vec<Effect>)
        requires
            old(self).inv(),
            old(self).game.duck is Some,
            old(self).game.score < u32::MAX,
            now + DUCK_RESPAWN_DELAY <= u64::MAX,
        ensures
            final(self)@ == old(self)@.press(now, true, None).0,
            r@ == old(self)@.press(now, true, None).1,
            final(self).inv(),
    {
        let mut out: Vec<Effect> = Vec::new();
        out.push(Effect::Play(Sound::Shot));
        if self.game.hit(now) {
            out.push(Effect::SaveHighScore(self.game.score));
            out.push(Effect::Play(Sound::Quack));
            out.push(Effect::Flash(Message::HighScore(self.game.score)));
        } else {
            out.push(Effect::Play(Sound::Quack));
            out.push(Effect::Flash(Message::Quack(self.game.score)));
        }
        out.push(Effect::Redraw);
        assert(out@ =~= old(self)@.press(now, true, None).1);
        out
    }

    /// Takes a press of the mouse button at `now`. `hit` says whether the duck, if there is
    /// one, is under the cursor, and `pixel` is the color there, if it is on the screen.
    pub fn pressed(&mut self, now: u64, hit: bool, pixel: Option<Rgb>) -> (r: Vec<Effect>)
        requires
            old(self).inv(),
            now + DUCK_RESPAWN_DELAY <= u64::MAX,
            hit ==> old(self).game.score < u32::MAX,
        ensures
            final(self)@ == old(self)@.press(now, hit, pixel).0,
            r@ == old(self)@.press(now, hit, pixel).1,
            final(self).inv(),
    {
        let mut out: Vec<Effect> = Vec::new();
        if self.game.waiting {
            self.game.spawn(now);
            out.push(Effect::SpawnDuck);
            out.push(Effect::Play(Sound::Chime));
            out.push(Effect::Redraw);
            return out;
        }
        if self.game.duck.is_some() {
            if hit {
                return self.killed(now);
            }
            out.push(Effect::Play(Sound::Shot));
        }
        self.clicked(pixel, &mut out);
        out.push(Effect::SyncCursor);
        out.push(Effect::Redraw);
        assert(out@ =~= old(self)@.press(now, hit, pixel).1);
        out
    }

    fn push_undo(&mut self, item: UndoItem)
        ensures
            final(self)@ == (SessionView {
                undo_stack: old(self)@.undo_stack.push(item),
                ..old(self)@
            }),
            forall|kind: UndoItem| #[trigger]
                occurrences(final(self)@.undo_stack, kind) == occurrences(
                    old(self)@.undo_stack,
                    kind,
                ) + if kind == item {
                    1int
                } else {
                    0
                },
    {
        self.undo_stack.push(item);
        assert(self.undo_stack@.drop_last() =~= old(self).undo_stack@);
    }

    /// Takes a release of the mouse button: the rectangle that was dragged out, if a drag
    /// ends.
    pub fn released(&mut self) -> (r: Option<Rect>)
        requires
            old(self).inv(),
        ensures
            final(self)@ == old(self)@.released(),
            r == old(self)@.dragged_out(),
            final(self).inv(),
    {
        if self.mode == Mode::Ruler && self.dragging {
            self.dragging = false;
            let r: Option<Rect> = match self.start {
                Some(start) => Some(drag_rect(start, self.cursor)),
                None => None,
            };
            self.start = None;
            r
        } else {
            None
        }
    }

    /// Where the sides of a dragged selection go, in pixels of the image: snapped to the
    /// content if snapping is on, else where they are. `size` is the width and the height that
    /// was dragged out, in any numbering that keeps their order; a drag that is not larger than
    /// `least` both ways selects nothing.
    pub fn fit_selection(
        &self,
        img: &Screenshot,
        size: (i64, i64),
        least: i64,
        rect: (i64, i64, i64, i64),
    ) -> (r: Option<(i64, i64, i64, i64)>)
        requires
            self.inv(),
            img.inv(),
            img.width > 0,
            img.height > 0,
        ensures
            r is Some <==> size.0 > least && size.1 > least,
            r matches Some(sides) ==> if self.snap_enabled {
                is_snapped(*img, rect, tolerance_of(self.tolerance_level as int), sides)
            } else {
                sides == rect
            },
    {
        if size.0 <= least || size.1 <= least {
            None
        } else if self.snap_enabled {
            Some(shrink_rect(img, rect, tolerance(self.tolerance_level)))
        } else {
            Some(rect)
        }
    }

    /// Ends a release of the mouse button: pins the selection that the drag leaves, if any.
    pub fn finish_release(&mut self, selected: Option<Rect>) -> (r: Vec<Effect>)
        requires
            old(self).inv(),
            selected is Some ==> old(self).mode is Ruler,
        ensures
            final(self)@ == old(self)@.settled(selected),
            r@ == SessionView::release_effects(selected),
            final(self).inv(),
    {
        let mut out: Vec<Effect> = Vec::new();
        if let Some(rect) = selected {
            self.snapped_rects.push(rect);
            self.push_undo(UndoItem::Rect);
            out.push(Effect::RefreshLegend);
        }
        out.push(Effect::SyncCursor);
        out.push(Effect::Redraw);
        out
    }

    /// Measures around a pixel of the image at the current tolerance, as (left, right, top,
    /// bottom), with the guides given in pixels of the image.
    pub fn measure(
        &self,
        img: &Screenshot,
        px: i64,
        py: i64,
        guides_x: &Vec<i64>,
        guides_y: &Vec<i64>,
    ) -> (r: (i64, i64, i64, i64))
        requires
            self.inv(),
            img.inv(),
        ensures
            !img.covers(px as int, py as int) ==> r == (px, px, py, py),
            img.covers(px as int, py as int) ==> {
                let tol = tolerance_of(self.tolerance_level as int);
                let reach = |dir: Direction, n: int|
                    reaches(*img, px as int, py as int, tol, guides_x@, guides_y@, dir, n);
                &&& reach(Direction::Left, px - r.0)
                &&& reach(Direction::Right, r.1 - px)
                &&& reach(Direction::Up, py - r.2)
                &&& reach(Direction::Down, r.3 - py)
            },
    {
        scan_extent(img, px, py, tolerance(self.tolerance_level), guides_x, guides_y)
    }

    /// Pins a horizontal measure line at the height of the cursor.
    pub fn pin_measure_h(&mut self, left: i64, right: i64)
        requires
            old(self).inv(),
        ensures
            final(self)@ == old(self)@.with_measure_h(left, right),
            final(self).inv(),
    {
        self.measure_lines_h.push((self.cursor.y, left, right));
        self.push_undo(UndoItem::MeasureH);
    }

    /// Pins a vertical measure line at the column of the cursor.
    pub fn pin_measure_v(&mut self, top: i64, bottom: i64)
        requires
            old(self).inv(),
        ensures
            final(self)@ == old(self)@.with_measure_v(top, bottom),
            final(self).inv(),
    {
        self.measure_lines_v.push((self.cursor.x, top, bottom));
        self.push_undo(UndoItem::MeasureV);
    }

    /// Takes the position of the pointer, and where the magnet pulls it. A nudged cursor stays
    /// where it is until the pointer moves. The result says whether the cursor moves.
    pub fn pointer_polled(&mut self, raw: Point, magnet: Point) -> (r: bool)
        requires
            old(self).inv(),
        ensures
            final(self)@ == old(self)@.polled(raw, magnet),
            r == (final(self).cursor != old(self).cursor),
            final(self).inv(),
    {
        let moved: bool = raw != self.last_raw_cursor;
        self.last_raw_cursor = raw;
        if !moved {
            return false;
        }
        let to: Point = if self.snap_enabled {
            magnet
        } else {
            raw
        };
        self.move_cursor(to)
    }

    /// Moves the cursor. The result says whether that changes anything.
    pub fn move_cursor(&mut self, to: Point) -> (r: bool)
        requires
            old(self).inv(),
        ensures
            r == (to != old(self).cursor),
            final(self)@ == (SessionView { cursor: to, ..old(self)@ }),
            final(self).inv(),
    {
        let moved: bool = to != self.cursor;
        self.cursor = to;
        moved
    }

    /// Notes where the size readout of the last selection is drawn.
    pub fn set_hover_box(&mut self, hover: Option<Rect>)
        requires
            old(self).inv(),
        ensures
            final(self)@ == (SessionView { hover_box: hover, ..old(self)@ }),
            final(self).inv(),
    {
        self.hover_box = hover;
    }

    /// Lets the next duck come if its time has.
    pub fn respawn_duck(&mut self, now: u64) -> (r: Vec<Effect>)
        requires
            old(self).inv(),
            now + FIRST_TURN_DELAY <= u64::MAX,
        ensures
            ({
                let due = old(self).game.next_spawn is Some && old(self).game.next_spawn->0 <= now;
                &&& final(self)@ == (if due {
                    SessionView { game: old(self).game.with_duck(now), ..old(self)@ }
                } else {
                    old(self)@
                })
                &&& r@ == (if due {
                    seq![Effect::SpawnDuck]
                } else {
                    seq![]
                })
            }),
            final(self).inv(),
    {
        let mut out: Vec<Effect> = Vec::new();
        if self.game.respawn_if_due(now) {
            out.push(Effect::SpawnDuck);
        }
        out
    }

    /// Plays one frame of the hunt at `now`.
    pub fn duck_frame(&mut self, now: u64, offscreen: bool) -> (r: (Flight, Vec<Effect>))
        requires
            old(self).inv(),
        ensures
            final(self)@ == (SessionView {
                game: old(self).game.after_frame(now, offscreen),
                ..old(self)@
            }),
            r.0 == old(self).game.flight(now, offscreen),
            r.1@ == old(self)@.frame_effects(now, offscreen),
            final(self).inv(),
    {
        let mut out: Vec<Effect> = Vec::new();
        let flight = self.game.frame(now, offscreen);
        match flight {
            Flight::Escaped { score } => {
                out.push(Effect::Play(Sound::Fail));
                out.push(Effect::Flash(Message::Missed(score)));
                out.push(Effect::Redraw);
            },
            Flight::Flies { .. } => {
                out.push(Effect::Redraw);
            },
            Flight::Nothing => {
                if self.game.next_spawn.is_some() {
                    out.push(Effect::Redraw);
                }
            },
        }
        (flight, out)
    }

    /// Sets when the duck turns next: `millis` after `now`.
    pub fn turn_duck(&mut self, now: u64, millis: u64)
        requires
            old(self).inv(),
            now + millis * 1_000_000 <= u64::MAX,
        ensures
            final(self)@ == (SessionView {
                game: Game {
                    duck: match old(self).game.duck {
                        Some(clock) => Some(
                            crate::duck::DuckClock {
                                next_turn: (now + millis * 1_000_000) as u64,
                                ..clock
                            },
                        ),
                        None => None,
                    },
                    ..old(self).game
                },
                ..old(self)@
            }),
            final(self).inv(),
    {
        self.game.set_next_turn(now, millis);
    }
}

/// Without the selections, everything else is there as often as before.
pub proof fn lemma_without_selections(s: Seq<UndoItem>)
    ensures
        occurrences(without_selections(s), UndoItem::Rect) == 0,
        forall|kind: UndoItem|
            kind !is Rect ==> #[trigger] occurrences(without_selections(s), kind) == occurrences(
                s,
                kind,
            ),
        occurrences(s, UndoItem::Rect) == 0 ==> without_selections(s) == s,
    decreases s.len(),
{
    reveal(Seq::filter);
    if s.len() > 0 {
        let rest = without_selections(s.drop_last());
        lemma_without_selections(s.drop_last());
        lemma_occurrences(s.drop_last());
        assert(occurrences(s.drop_last(), UndoItem::Rect) >= 0);
        if s.last() !is Rect {
            assert(without_selections(s) == rest.push(s.last()));
            assert(without_selections(s).drop_last() =~= rest);
            assert(s.drop_last().push(s.last()) =~= s);
        }
        assert forall|kind: UndoItem| kind !is Rect implies #[trigger] occurrences(
            without_selections(s),
            kind,
        ) == occurrences(s, kind) by {
            assert(occurrences(rest, kind) == occurrences(s.drop_last(), kind));
        }
    } else {
        assert(without_selections(s) =~= s);
    }
}

proof fn lemma_occurrences(s: Seq<UndoItem>)
    ensures
        forall|kind: UndoItem| #[trigger] occurrences(s, kind) >= 0,
    decreases s.len(),
{
    if s.len() > 0 {
        lemma_occurrences(s.drop_last());
        assert forall|kind: UndoItem| #[trigger] occurrences(s, kind) >= 0 by {
            assert(occurrences(s.drop_last(), kind) >= 0);
        }
    }
}

} // verus!
