//! What is exchanged with other programs.

use omaruler::monitor::{active_monitor, choose_monitor, cursor_pos, read_monitors, MonitorEntry};
use omaruler::shell::{
    editor_command, parse_high_score, screenshot_path, screenshots_dir, selection_file_name,
    shell_quote, sound_file_name, timestamp,
};
use omaruler::text::{decimal_string, parse_u32, trim};

const TWO: &str = r#"[
  {"name": "eDP-1", "x": 0, "y": 0, "width": 1920, "height": 1200, "scale": 1.5, "focused": false},
  {"name": "DP-2", "x": 1920, "y": -100, "width": 2560, "height": 1440, "focused": true}
]"#;

fn chosen(report: &str, cursor: Option<(i32, i32)>) -> Option<(String, f64)> {
    active_monitor(report.as_bytes(), cursor).map(|m| (m.name, f64::from_bits(m.scale_bits)))
}

#[test]
fn monitor_under_the_cursor_is_chosen() {
    assert_eq!(chosen(TWO, Some((5, 5))), Some(("eDP-1".to_string(), 1.5)));
    assert_eq!(chosen(TWO, Some((1919, 1199))), Some(("eDP-1".to_string(), 1.5)));
    assert_eq!(chosen(TWO, Some((1920, 0))), Some(("DP-2".to_string(), 1.0)));
    assert_eq!(chosen(TWO, Some((4479, -100))), Some(("DP-2".to_string(), 1.0)));
}

#[test]
fn focused_monitor_is_the_default() {
    assert_eq!(chosen(TWO, None), Some(("DP-2".to_string(), 1.0)));
    assert_eq!(chosen(TWO, Some((-5, 5))), Some(("DP-2".to_string(), 1.0)));
    let unfocused = r#"[{"name": "A", "scale": 2}, {"name": "B"}]"#;
    assert_eq!(chosen(unfocused, None), Some(("A".to_string(), 2.0)));
}

#[test]
fn unusable_reports_choose_nothing() {
    assert_eq!(chosen("", None), None);
    assert_eq!(chosen("{}", None), None);
    assert_eq!(chosen("[]", None), None);
    assert_eq!(chosen("[]", Some((1, 1))), None);
    assert_eq!(chosen("[{\"name\": \"A\"", None), None);
    assert_eq!(chosen("[{\"focused\": true}]", None), None);
    assert_eq!(chosen("[{\"name\": 3}]", None), None);
}

#[test]
fn missing_bound_before_the_match_chooses_nothing() {
    let report = r#"[{"name": "A", "x": 0, "y": 0, "width": 10},
        {"name": "B", "x": 0, "y": 0, "width": 10, "height": 10, "focused": true}]"#;
    assert_eq!(chosen(report, Some((1, 1))), None);
    assert_eq!(chosen(report, None), Some(("B".to_string(), 1.0)));
    let report = r#"[{"name": "B", "x": 0, "y": 0, "width": 10, "height": 10},
        {"name": "A", "x": 0}]"#;
    assert_eq!(chosen(report, Some((1, 1))), Some(("B".to_string(), 1.0)));
}

#[test]
fn bound_that_is_no_integer_counts_as_zero() {
    let report = r#"[{"name": "A", "x": "left", "y": 0.5, "width": 10, "height": 10}]"#;
    let entries = read_monitors(report.as_bytes()).unwrap();
    assert_eq!((entries[0].x, entries[0].y), (Some(0), Some(0)));
    assert_eq!(chosen(report, Some((1, 1))), Some(("A".to_string(), 1.0)));
}

#[test]
fn choice_works_on_plain_entries() {
    let entry = |name: &str, x: i32, focused: bool| MonitorEntry {
        x: Some(x),
        y: Some(0),
        width: Some(100),
        height: Some(100),
        name: Some(name.to_string()),
        scale_bits: None,
        focused,
    };
    let all = vec![entry("A", 0, false), entry("B", 50, true), entry("C", 100, true)];
    let name = |cursor| choose_monitor(&all, cursor).map(|m| m.name);
    assert_eq!(name(Some((60, 0))), Some("A".to_string()));
    assert_eq!(name(Some((120, 99))), Some("B".to_string()));
    assert_eq!(name(Some((160, 0))), Some("C".to_string()));
    assert_eq!(name(Some((160, 100))), Some("B".to_string()));
    assert_eq!(name(None), Some("B".to_string()));
}

#[test]
fn cursor_report_gives_both_coordinates() {
    let (x, y) = cursor_pos(br#"{"x": 12, "y": -3.5}"#).unwrap();
    assert_eq!((f64::from_bits(x), f64::from_bits(y)), (12.0, -3.5));
    assert_eq!(cursor_pos(br#"{"x": 12}"#), None);
    assert_eq!(cursor_pos(br#"{"x": 12, "y": "3"}"#), None);
    assert_eq!(cursor_pos(b"nothing"), None);
}

#[test]
fn quoting_survives_single_quotes() {
    assert_eq!(shell_quote("/tmp/a b.png"), "'/tmp/a b.png'");
    assert_eq!(shell_quote("it's"), "'it'\\''s'");
    assert_eq!(shell_quote(""), "''");
    assert_eq!(shell_quote("'"), "''\\'''");
}

#[test]
fn editor_command_opens_and_removes_the_file() {
    assert_eq!(editor_command("/tmp/x y"), "omasnap --file '/tmp/x y'; rm -f '/tmp/x y'");
}

#[test]
fn file_names() {
    assert_eq!(selection_file_name("2024-01-02_03-04-05"), "omaruler-2024-01-02_03-04-05.png");
    assert_eq!(screenshots_dir("/home/a"), "/home/a/Pictures/Screenshots");
    assert_eq!(screenshot_path("/home/a", "now"), "/home/a/Pictures/Screenshots/omaruler-now.png");
    assert_eq!(sound_file_name("quack"), "omaruler-sound-quack.wav");
}

#[test]
fn timestamps_are_trimmed() {
    assert_eq!(timestamp(Some("2024-01-02\n")), "2024-01-02");
    assert_eq!(timestamp(Some(" \u{2003}a b\t")), "a b");
    assert_eq!(timestamp(Some(" \n ")), "");
    assert_eq!(timestamp(None), "output");
}

#[test]
fn high_score_file() {
    assert_eq!(parse_high_score(Some("17\n")), 17);
    assert_eq!(parse_high_score(Some(" +4 ")), 4);
    assert_eq!(parse_high_score(Some("4294967295")), u32::MAX);
    assert_eq!(parse_high_score(Some("4294967296")), 0);
    assert_eq!(parse_high_score(Some("1 2")), 0);
    assert_eq!(parse_high_score(Some("")), 0);
    assert_eq!(parse_high_score(None), 0);
}

#[test]
fn high_score_reads_back_as_written() {
    for n in [0, 1, 9, 10, 12_345, u32::MAX] {
        assert_eq!(parse_high_score(Some(&decimal_string(n))), n);
    }
}

#[test]
fn numbers_in_decimal() {
    assert_eq!(decimal_string(0), "0");
    assert_eq!(decimal_string(1050), "1050");
    assert_eq!(decimal_string(u32::MAX), "4294967295");
    assert_eq!(parse_u32(&vec!['0', '0', '7']), Some(7));
    assert_eq!(parse_u32(&vec!['+']), None);
    assert_eq!(parse_u32(&vec![]), None);
    assert_eq!(parse_u32(&vec!['+', '+', '1']), None);
}

#[test]
fn trimming_knows_all_white_space() {
    assert_eq!(trim("\u{85}\u{1680}\u{2028}x\u{200b}\u{205f}\u{b}"), vec!['x', '\u{200b}']);
}
