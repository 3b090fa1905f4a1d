//! What the session tells its user: the hint card, status messages, labels and the cursor.

use crate::color::{hex_string, hex_text};
use crate::screenshot::Rgb;
use crate::session::{Message, Mode, Session, SessionView, TOLERANCE_LEVELS};
use crate::text::{decimal, decimal_string};
use vstd::prelude::*;
use vstd::string::*;

verus! {

// The hint card

/// A key and what it does.
pub type Hint = (Seq<char>, Seq<char>);

/// The hints while nothing is selected.
pub open spec fn idle_hints() -> Seq<Hint> {
    seq![
        ("drag"@, "select & snap"@),
        ("h/v"@, "measure line"@),
        ("shift+h/v"@, "guide"@),
        ("ctrl+z"@, "undo"@),
        ("t"@, "tolerance"@),
        ("n"@, "toggle snap"@),
        ("c"@, "color"@),
        ("l"@, "hide legend"@),
    ]
}

/// The hints once something is selected, where C and S act on the selection.
pub open spec fn selection_hints() -> Seq<Hint> {
    seq![
        ("drag"@, "new selection"@),
        ("c"@, "copy"@),
        ("s"@, "save"@),
        ("ctrl+z"@, "undo"@),
        ("t"@, "tolerance"@),
        ("n"@, "toggle snap"@),
        ("l"@, "hide legend"@),
    ]
}

/// The hints while a guide is placed.
pub open spec fn guide_hints() -> Seq<Hint> {
    seq![("click"@, "place guide"@), ("esc"@, "cancel"@)]
}

/// The hints that go with a state, `None` where there are to be none.
pub open spec fn hints_of(s: SessionView) -> Option<Seq<Hint>> {
    if !s.show_legend {
        None
    } else {
        match s.mode {
            Mode::Ruler => Some(
                if s.snapped_rects.len() == 0 {
                    idle_hints()
                } else {
                    selection_hints()
                },
            ),
            Mode::GuideH => Some(guide_hints()),
            Mode::GuideV => Some(guide_hints()),
            Mode::Color => None,
        }
    }
}

pub open spec fn hint_views(entries: Seq<(&'static str, &'static str)>) -> Seq<Hint> {
    entries.map_values(|e: (&'static str, &'static str)| (e.0@, e.1@))
}

fn idle() -> (r: Vec<(&'static str, &'static str)>)
    ensures
        hint_views(r@) == idle_hints(),
{
    let mut out: Vec<(&'static str, &'static str)> = Vec::new();
    out.push(("drag", "select & snap"));
    out.push(("h/v", "measure line"));
    out.push(("shift+h/v", "guide"));
    out.push(("ctrl+z", "undo"));
    out.push(("t", "tolerance"));
    out.push(("n", "toggle snap"));
    out.push(("c", "color"));
    out.push(("l", "hide legend"));
    assert(hint_views(out@) =~= idle_hints());
    out
}

fn selection() -> (r: Vec<(&'static str, &'static str)>)
    ensures
        hint_views(r@) == selection_hints(),
{
    let mut out: Vec<(&'static str, &'static str)> = Vec::new();
    out.push(("drag", "new selection"));
    out.push(("c", "copy"));
    out.push(("s", "save"));
    out.push(("ctrl+z", "undo"));
    out.push(("t", "tolerance"));
    out.push(("n", "toggle snap"));
    out.push(("l", "hide legend"));
    assert(hint_views(out@) =~= selection_hints());
    out
}

fn guide() -> (r: Vec<(&'static str, &'static str)>)
    ensures
        hint_views(r@) == guide_hints(),
{
    let mut out: Vec<(&'static str, &'static str)> = Vec::new();
    out.push(("click", "place guide"));
    out.push(("esc", "cancel"));
    assert(hint_views(out@) =~= guide_hints());
    out
}

/// The hints that go with the state of the session, `None` where there are to be none.
pub fn legend_entries(s: &Session) -> (r: Option<Vec<(&'static str, &'static str)>>)
    ensures
        (match r {
            Some(entries) => Some(hint_views(entries@)),
            None => None,
        }) == hints_of(s@),
{
    if !s.show_legend {
        return None;
    }
    match s.mode {
        Mode::Ruler => if s.snapped_rects.len() == 0 {
            Some(idle())
        } else {
            Some(selection())
        },
        Mode::GuideH | Mode::GuideV => Some(guide()),
        Mode::Color => None,
    }
}

/// The arguments with which the desktop shows the first `n` hints.
pub open spec fn entry_args(hints: Seq<Hint>, n: int) -> Seq<Seq<char>>
    decreases n,
{
    if n <= 0 {
        seq![]
    } else {
        entry_args(hints, n - 1).push("-e"@).push(hints[n - 1].0 + ":"@ + hints[n - 1].1)
    }
}

/// The arguments with which the desktop shows hints in the top right corner.
pub open spec fn show_args(hints: Seq<Hint>) -> Seq<Seq<char>> {
    entry_args(hints, hints.len() as int).push("-c"@).push("top-right"@)
}

pub open spec fn string_views(v: Seq<String>) -> Seq<Seq<char>> {
    v.map_values(|s: String| s@)
}

fn push_arg(args: &mut Vec<String>, arg: String)
    ensures
        string_views(final(args)@) == string_views(old(args)@).push(arg@),
{
    args.push(arg);
    assert(string_views(args@) =~= string_views(old(args)@).push(arg@));
}

/// The arguments with which the desktop shows these hints.
pub fn legend_args(entries: &Vec<(&'static str, &'static str)>) -> (r: Vec<String>)
    ensures
        string_views(r@) == show_args(hint_views(entries@)),
{
    let ghost hints = hint_views(entries@);
    let mut out: Vec<String> = Vec::new();
    let mut i: usize = 0;
    assert(string_views(out@) =~= entry_args(hints, 0));
    while i < entries.len()
        invariant
            i <= entries@.len(),
            hints == hint_views(entries@),
            string_views(out@) == entry_args(hints, i as int),
        decreases entries@.len() - i,
    {
        let (key, action) = entries[i];
        assert(hints[i as int] == (key@, action@));
        let mut pair: String = key.to_owned();
        pair.append(":");
        pair.append(action);
        push_arg(&mut out, "-e".to_owned());
        push_arg(&mut out, pair);
        i = i + 1;
    }
    push_arg(&mut out, "-c".to_owned());
    push_arg(&mut out, "top-right".to_owned());
    out
}

/// What to ask of the desktop's hint card.
#[derive(Clone, PartialEq, Eq, Debug)]
pub enum CardCall {
    /// To show hints, with these arguments.
    Show(Vec<String>),
    Hide,
}

pub enum CardCallView {
    Show(Seq<Seq<char>>),
    Hide,
}

impl View for CardCall {
    type V = CardCallView;

    open spec fn view(&self) -> CardCallView {
        match self {
            CardCall::Show(args) => CardCallView::Show(string_views(args@)),
            CardCall::Hide => CardCallView::Hide,
        }
    }
}

/// What is asked of the desktop's hint card in a state: nothing where the desktop has none, else
/// to show the hints of the state, or to hide where there are none.
pub open spec fn card_call_of(s: SessionView) -> Option<CardCallView> {
    if !s.legend_available {
        None
    } else {
        match hints_of(s) {
            Some(hints) => Some(CardCallView::Show(show_args(hints))),
            None => Some(CardCallView::Hide),
        }
    }
}

/// What to ask of the desktop's hint card, if there is one.
pub fn refresh_legend(s: &Session) -> (r: Option<CardCall>)
    ensures
        (match r {
            Some(call) => Some(call@),
            None => None,
        }) == card_call_of(s@),
{
    if !s.legend_available {
        return None;
    }
    match legend_entries(s) {
        Some(entries) => Some(CardCall::Show(legend_args(&entries))),
        None => Some(CardCall::Hide),
    }
}

// The mouse cursor

/// The mouse cursor that goes with a state: hidden while measuring, visible once there is a
/// selection to click on, and that of a moved line while a guide is placed.
pub open spec fn cursor_of(s: SessionView) -> Seq<char> {
    match s.mode {
        Mode::Ruler => if s.snapped_rects.len() > 0 {
            "default"@
        } else {
            "none"@
        },
        Mode::GuideH => "row-resize"@,
        Mode::GuideV => "col-resize"@,
        Mode::Color => "none"@,
    }
}

/// The name of the mouse cursor that goes with the state.
pub fn cursor_name(s: &Session) -> (r: &'static str)
    ensures
        r@ == cursor_of(s@),
{
    match s.mode {
        Mode::Ruler => if s.snapped_rects.len() > 0 {
            "default"
        } else {
            "none"
        },
        Mode::GuideH => "row-resize",
        Mode::GuideV => "col-resize",
        Mode::Color => "none",
    }
}

// Messages

/// The name of a tolerance level.
pub open spec fn tolerance_name_of(level: int) -> Seq<char> {
    if level == 0 {
        "Off"@
    } else if level == 1 {
        "Low"@
    } else if level == 2 {
        "Med"@
    } else {
        "High"@
    }
}

/// The name of a tolerance level.
pub fn tolerance_name(level: usize) -> (r: &'static str)
    requires
        level < TOLERANCE_LEVELS,
    ensures
        r@ == tolerance_name_of(level as int),
{
    if level == 0 {
        "Off"
    } else if level == 1 {
        "Low"
    } else if level == 2 {
        "Med"
    } else {
        "High"
    }
}

/// The words of a message.
pub open spec fn message_text_of(m: Message) -> Seq<char> {
    match m {
        Message::SnapOn => "Snap: On"@,
        Message::SnapOff => "Snap: Off"@,
        Message::Tolerance(level) => "Tolerance: "@ + tolerance_name_of(level as int),
        Message::Missed(score) => "Missed! Score: "@ + decimal(score as int),
        Message::HighScore(score) => "🦆 High score: "@ + decimal(score as int) + "!"@,
        Message::Quack(score) => "🦆 Quack! Score: "@ + decimal(score as int),
        Message::FinalScore(score) => "Final score: "@ + decimal(score as int),
    }
}

/// The words of a message.
pub fn message_text(m: Message) -> (r: String)
    requires
        m matches Message::Tolerance(level) ==> level < TOLERANCE_LEVELS,
    ensures
        r@ == message_text_of(m),
{
    match m {
        Message::SnapOn => "Snap: On".to_owned(),
        Message::SnapOff => "Snap: Off".to_owned(),
        Message::Tolerance(level) => {
            let mut out: String = "Tolerance: ".to_owned();
            out.append(tolerance_name(level));
            out
        },
        Message::Missed(score) => {
            let mut out: String = "Missed! Score: ".to_owned();
            out.append(decimal_string(score).as_str());
            out
        },
        Message::HighScore(score) => {
            let mut out: String = "🦆 High score: ".to_owned();
            out.append(decimal_string(score).as_str());
            out.append("!");
            out
        },
        Message::Quack(score) => {
            let mut out: String = "🦆 Quack! Score: ".to_owned();
            out.append(decimal_string(score).as_str());
            out
        },
        Message::FinalScore(score) => {
            let mut out: String = "Final score: ".to_owned();
            out.append(decimal_string(score).as_str());
            out
        },
    }
}

/// The note that a color was copied.
pub fn copied_text(c: Rgb) -> (r: String)
    ensures
        r@ == "copied "@ + hex_text(c),
{
    let mut out: String = "copied ".to_owned();
    out.append(hex_string(c).as_str());
    out
}

/// The label beside the loupe for the color under the cursor.
pub fn color_label(c: Rgb) -> (r: String)
    ensures
        r@ == hex_text(c) + "  ·  click to copy  ·  esc: quit"@,
{
    let mut out = hex_string(c);
    out.append("  ·  click to copy  ·  esc: quit");
    out
}

} // verus!
