//! Which monitor to measure: what the compositor reports, and the choice made from it.

use vstd::prelude::*;

verus! {

// JSON, as the `serde_json` crate holds it

#[verifier::external_type_specification]
#[verifier::external_body]
pub struct ExValue(serde_json::Value);

/// What a JSON value holds. A number is known by the integer it is, if it is one of 64 signed
/// bits, and by the bits of the floating-point number it stands for.
pub enum Json {
    Null,
    Bool(bool),
    Number { integer: Option<i64>, bits: u64 },
    Text(Seq<char>),
    Array(Seq<Json>),
    Object(Map<Seq<char>, Json>),
}

/// What a value of the `serde_json` crate holds.
pub uninterp spec fn json_contents(v: serde_json::Value) -> Json;

/// What the document that `serde_json` reads from a text holds, or `None` where it reports an
/// error.
pub uninterp spec fn json_document(text: Seq<u8>) -> Option<Json>;

impl Json {
    /// The member of an object that has this key.
    pub open spec fn member(self, key: Seq<char>) -> Option<Json> {
        match self {
            Json::Object(members) => if members.contains_key(key) {
                Some(members[key])
            } else {
                None
            },
            _ => None,
        }
    }

    pub open spec fn integer(self) -> Option<i64> {
        match self {
            Json::Number { integer, bits } => integer,
            _ => None,
        }
    }

    pub open spec fn float_bits(self) -> Option<u64> {
        match self {
            Json::Number { integer, bits } => Some(bits),
            _ => None,
        }
    }

    pub open spec fn text(self) -> Option<Seq<char>> {
        match self {
            Json::Text(s) => Some(s),
            _ => None,
        }
    }

    pub open spec fn boolean(self) -> Option<bool> {
        match self {
            Json::Bool(b) => Some(b),
            _ => None,
        }
    }
}

/// `serde_json::from_slice` into a `Value`: what it holds depends on the text alone.
#[verifier::external_body]
fn json_from_slice(text: &[u8]) -> (r: Option<serde_json::Value>)
    ensures
        (match r {
            Some(v) => Some(json_contents(v)),
            None => None,
        }) == json_document(text@),
{
    serde_json::from_slice(text).ok()
}

/// `serde_json::Value::get` with a string: the member of an object under that key, `None` for
/// another key or another kind of value.
#[verifier::external_body]
fn json_get<'a>(v: &'a serde_json::Value, key: &str) -> (r: Option<&'a serde_json::Value>)
    ensures
        (match r {
            Some(m) => Some(json_contents(*m)),
            None => None,
        }) == json_contents(*v).member(key@),
{
    v.get(key)
}

/// `serde_json::Value::as_array`: the elements of an array in order, `None` for another kind
/// of value.
#[verifier::external_body]
fn json_as_array(v: &serde_json::Value) -> (r: Option<&Vec<serde_json::Value>>)
    ensures
        r is Some <==> json_contents(*v) is Array,
        r matches Some(items) ==> json_contents(*v)->Array_0 == items@.map_values(
            |item: serde_json::Value| json_contents(item),
        ),
{
    v.as_array()
}

/// `serde_json::Value::as_i64`: the integer that a number is, if it is one of 64 signed bits.
#[verifier::external_body]
fn json_as_i64(v: &serde_json::Value) -> (r: Option<i64>)
    ensures
        r == json_contents(*v).integer(),
{
    v.as_i64()
}

/// `serde_json::Value::as_f64`, as bits: the floating-point number that a number stands for.
#[verifier::external_body]
fn json_as_float_bits(v: &serde_json::Value) -> (r: Option<u64>)
    ensures
        r == json_contents(*v).float_bits(),
{
    v.as_f64().map(|x| x.to_bits())
}

/// `serde_json::Value::as_str`: the characters of a string.
#[verifier::external_body]
fn json_as_str(v: &serde_json::Value) -> (r: Option<&str>)
    ensures
        (match r {
            Some(s) => Some(s@),
            None => None,
        }) == json_contents(*v).text(),
{
    v.as_str()
}

/// `serde_json::Value::as_bool`: the truth value that a boolean is.
#[verifier::external_body]
fn json_as_bool(v: &serde_json::Value) -> (r: Option<bool>)
    ensures
        r == json_contents(*v).boolean(),
{
    v.as_bool()
}

// What is read from the reports

/// One monitor as it is reported. A bound is absent where the report has no such member, and 0
/// where the member is not an integer.
pub struct MonitorEntry {
    pub x: Option<i32>,
    pub y: Option<i32>,
    pub width: Option<i32>,
    pub height: Option<i32>,
    pub name: Option<String>,
    pub scale_bits: Option<u64>,
    pub focused: bool,
}

/// The monitor to measure: its name, and the bits of its scale.
pub struct MonitorInfo {
    pub name: String,
    pub scale_bits: u64,
}

/// The bits of the scale 1, that of a monitor that reports none.
pub const UNIT_SCALE_BITS: u64 = 0x3ff0_0000_0000_0000;

#[verifier::ext_equal]
pub struct EntryView {
    pub x: Option<i32>,
    pub y: Option<i32>,
    pub width: Option<i32>,
    pub height: Option<i32>,
    pub name: Option<Seq<char>>,
    pub scale_bits: Option<u64>,
    pub focused: bool,
}

impl View for MonitorEntry {
    type V = EntryView;

    open spec fn view(&self) -> EntryView {
        EntryView {
            x: self.x,
            y: self.y,
            width: self.width,
            height: self.height,
            name: match self.name {
                Some(s) => Some(s@),
                None => None,
            },
            scale_bits: self.scale_bits,
            focused: self.focused,
        }
    }
}

impl View for MonitorInfo {
    type V = (Seq<char>, u64);

    open spec fn view(&self) -> (Seq<char>, u64) {
        (self.name@, self.scale_bits)
    }
}

/// A bound of a monitor: the low 32 bits of an integer member, 0 for another kind of member.
pub open spec fn bound_of(m: Json, key: Seq<char>) -> Option<i32> {
    match m.member(key) {
        None => None,
        Some(v) => match v.integer() {
            Some(n) => Some(n as i32),
            None => Some(0),
        },
    }
}

/// What one element of the monitor report says.
pub open spec fn entry_of(m: Json) -> EntryView {
    EntryView {
        x: bound_of(m, "x"@),
        y: bound_of(m, "y"@),
        width: bound_of(m, "width"@),
        height: bound_of(m, "height"@),
        name: match m.member("name"@) {
            Some(v) => v.text(),
            None => None,
        },
        scale_bits: match m.member("scale"@) {
            Some(v) => v.float_bits(),
            None => None,
        },
        focused: match m.member("focused"@) {
            Some(v) => v.boolean() == Some(true),
            None => false,
        },
    }
}

/// What the monitor report says: its elements, if it is an array.
pub open spec fn entries_of(doc: Option<Json>) -> Option<Seq<EntryView>> {
    match doc {
        Some(Json::Array(items)) => Some(items.map_values(|m: Json| entry_of(m))),
        _ => None,
    }
}

/// What the cursor report says: the bits of the two coordinates, if both are numbers.
pub open spec fn cursor_of(doc: Option<Json>) -> Option<(u64, u64)> {
    match doc {
        None => None,
        Some(v) => match (v.member("x"@), v.member("y"@)) {
            (Some(x), Some(y)) => match (x.float_bits(), y.float_bits()) {
                (Some(p), Some(q)) => Some((p, q)),
                _ => None,
            },
            _ => None,
        },
    }
}

fn read_bound(m: &serde_json::Value, key: &str) -> (r: Option<i32>)
    ensures
        r == bound_of(json_contents(*m), key@),
{
    match json_get(m, key) {
        None => None,
        Some(v) => match json_as_i64(v) {
            Some(n) => Some(#[verifier::truncate] (n as i32)),
            None => Some(0),
        },
    }
}

fn read_entry(m: &serde_json::Value) -> (r: MonitorEntry)
    ensures
        r@ == entry_of(json_contents(*m)),
{
    let name: Option<String> = match json_get(m, "name") {
        Some(v) => match json_as_str(v) {
            Some(s) => Some(s.to_owned()),
            None => None,
        },
        None => None,
    };
    let scale_bits: Option<u64> = match json_get(m, "scale") {
        Some(v) => json_as_float_bits(v),
        None => None,
    };
    let focused: bool = match json_get(m, "focused") {
        Some(v) => match json_as_bool(v) {
            Some(b) => b,
            None => false,
        },
        None => false,
    };
    MonitorEntry {
        x: read_bound(m, "x"),
        y: read_bound(m, "y"),
        width: read_bound(m, "width"),
        height: read_bound(m, "height"),
        name,
        scale_bits,
        focused,
    }
}

pub open spec fn entry_views(entries: Seq<MonitorEntry>) -> Seq<EntryView> {
    entries.map_values(|e: MonitorEntry| e@)
}

/// Reads the monitor report.
pub fn read_monitors(report: &[u8]) -> (r: Option<Vec<MonitorEntry>>)
    ensures
        r is Some <==> entries_of(json_document(report@)) is Some,
        r matches Some(entries) ==> entries_of(json_document(report@)) == Some(
            entry_views(entries@),
        ),
{
    let doc = match json_from_slice(report) {
        Some(doc) => doc,
        None => return None,
    };
    let items = match json_as_array(&doc) {
        Some(items) => items,
        None => return None,
    };
    let mut out: Vec<MonitorEntry> = Vec::new();
    let mut i: usize = 0;
    while i < items.len()
        invariant
            i <= items@.len(),
            out@.len() == i,
            forall|k: int|
                0 <= k < i ==> (#[trigger] out@[k])@ == entry_of(json_contents(items@[k])),
        decreases items@.len() - i,
    {
        out.push(read_entry(&items[i]));
        i = i + 1;
    }
    proof {
        let said = entries_of(json_document(report@))->0;
        assert(said =~= entry_views(out@));
    }
    Some(out)
}

/// Reads the cursor report, as the bits of the two coordinates.
pub fn cursor_pos(report: &[u8]) -> (r: Option<(u64, u64)>)
    ensures
        r == cursor_of(json_document(report@)),
{
    let doc = match json_from_slice(report) {
        Some(doc) => doc,
        None => return None,
    };
    match (json_get(&doc, "x"), json_get(&doc, "y")) {
        (Some(x), Some(y)) => match (json_as_float_bits(x), json_as_float_bits(y)) {
            (Some(p), Some(q)) => Some((p, q)),
            _ => None,
        },
        _ => None,
    }
}

// The choice

/// Whether a position on one axis lies in a monitor's range. The end of the range wraps around
/// at 32 bits.
pub open spec fn in_range(v: i32, start: i32, length: i32) -> bool {
    start <= v < start.wrapping_add(length)
}

/// Whether all four bounds of a monitor are reported.
pub open spec fn has_bounds(e: EntryView) -> bool {
    e.x is Some && e.y is Some && e.width is Some && e.height is Some
}

pub open spec fn under_cursor(e: EntryView, cursor: (i32, i32)) -> bool {
    &&& has_bounds(e)
    &&& in_range(cursor.0, e.x->0, e.width->0)
    &&& in_range(cursor.1, e.y->0, e.height->0)
}

/// `i` is the first monitor that lies under the cursor or lacks a bound.
pub open spec fn is_first_stop(entries: Seq<EntryView>, cursor: (i32, i32), i: int) -> bool {
    &&& 0 <= i < entries.len()
    &&& under_cursor(entries[i], cursor) || !has_bounds(entries[i])
    &&& forall|j: int|
        0 <= j < i ==> has_bounds(#[trigger] entries[j]) && !under_cursor(entries[j], cursor)
}

/// `i` is the first focused monitor, or the first one where none has the focus.
pub open spec fn is_default(entries: Seq<EntryView>, i: int) -> bool {
    &&& 0 <= i < entries.len()
    &&& if entries[i].focused {
        forall|j: int| 0 <= j < i ==> !(#[trigger] entries[j]).focused
    } else {
        i == 0 && forall|j: int| 0 <= j < entries.len() ==> !(#[trigger] entries[j]).focused
    }
}

/// A monitor as it is measured, if it has a name.
pub open spec fn described(e: EntryView) -> Option<(Seq<char>, u64)> {
    match e.name {
        Some(name) => Some(
            (
                name,
                match e.scale_bits {
                    Some(bits) => bits,
                    None => UNIT_SCALE_BITS,
                },
            ),
        ),
        None => None,
    }
}

/// What is chosen from a monitor report: the first monitor under the cursor, unless one before
/// it lacks a bound, in which case nothing is; with no cursor position, or no monitor under it,
/// the default one.
pub open spec fn is_choice(
    entries: Seq<EntryView>,
    cursor: Option<(i32, i32)>,
    chosen: Option<(Seq<char>, u64)>,
) -> bool {
    if cursor is Some && exists|i: int| is_first_stop(entries, cursor->0, i) {
        exists|i: int| #[trigger]
            is_first_stop(entries, cursor->0, i) && chosen == (if has_bounds(entries[i]) {
                described(entries[i])
            } else {
                None
            })
    } else if entries.len() == 0 {
        chosen is None
    } else {
        exists|i: int| #[trigger]
            is_default(entries, i) && chosen == described(entries[i])
    }
}

fn describe(e: &MonitorEntry) -> (r: Option<MonitorInfo>)
    ensures
        (match r {
            Some(m) => Some(m@),
            None => None,
        }) == described(e@),
{
    match &e.name {
        Some(name) => Some(
            MonitorInfo {
                name: name.clone(),
                scale_bits: match e.scale_bits {
                    Some(bits) => bits,
                    None => UNIT_SCALE_BITS,
                },
            },
        ),
        None => None,
    }
}

fn within(v: i32, start: i32, length: i32) -> (r: bool)
    ensures
        r == in_range(v, start, length),
{
    v >= start && v < start.wrapping_add(length)
}

/// Chooses the monitor to measure from what is reported.
pub fn choose_monitor(entries: &Vec<MonitorEntry>, cursor: Option<(i32, i32)>) -> (r: Option<
    MonitorInfo,
>)
    ensures
        is_choice(
            entry_views(entries@),
            cursor,
            match r {
                Some(m) => Some(m@),
                None => None,
            },
        ),
{
    let ghost views = entry_views(entries@);
    if let Some((cx, cy)) = cursor {
        let mut i: usize = 0;
        while i < entries.len()
            invariant
                i <= entries@.len(),
                views == entry_views(entries@),
                cursor == Some((cx, cy)),
                forall|j: int|
                    0 <= j < i ==> has_bounds(#[trigger] views[j]) && !under_cursor(
                        views[j],
                        (cx, cy),
                    ),
            decreases entries@.len() - i,
        {
            let e = &entries[i];
            assert(views[i as int] == e@);
            match (e.x, e.y, e.width, e.height) {
                (Some(x), Some(y), Some(width), Some(height)) => {
                    if within(cx, x, width) && within(cy, y, height) {
                        assert(is_first_stop(views, (cx, cy), i as int));
                        return describe(e);
                    }
                },
                _ => {
                    assert(is_first_stop(views, (cx, cy), i as int));
                    return None;
                },
            }
            i = i + 1;
        }
        assert forall|k: int| !is_first_stop(views, (cx, cy), k) by {}
    }
    if entries.len() == 0 {
        return None;
    }
    let mut i: usize = 0;
    while i < entries.len()
        invariant
            i <= entries@.len(),
            0 < entries@.len(),
            views == entry_views(entries@),
            cursor is Some ==> forall|k: int| !is_first_stop(views, cursor->0, k),
            forall|j: int| 0 <= j < i ==> !(#[trigger] views[j]).focused,
        decreases entries@.len() - i,
    {
        assert(views[i as int] == entries@[i as int]@);
        if entries[i].focused {
            assert(is_default(views, i as int));
            return describe(&entries[i]);
        }
        i = i + 1;
    }
    assert(views[0] == entries@[0]@);
    assert(is_default(views, 0));
    describe(&entries[0])
}

/// The monitor to measure, from the monitor report and the position of the cursor. `None`
/// stands for a report that cannot be read or does not say enough.
pub fn active_monitor(report: &[u8], cursor: Option<(i32, i32)>) -> (r: Option<MonitorInfo>)
    ensures
        match entries_of(json_document(report@)) {
            None => r is None,
            Some(entries) => is_choice(
                entries,
                cursor,
                match r {
                    Some(m) => Some(m@),
                    None => None,
                },
            ),
        },
{
    match read_monitors(report) {
        Some(entries) => choose_monitor(&entries, cursor),
        None => None,
    }
}

// Laws

/// Only one choice can be made from a report.
pub proof fn law_choice_is_unique(
    entries: Seq<EntryView>,
    cursor: Option<(i32, i32)>,
    a: Option<(Seq<char>, u64)>,
    b: Option<(Seq<char>, u64)>,
)
    requires
        is_choice(entries, cursor, a),
        is_choice(entries, cursor, b),
    ensures
        a == b,
{
    if cursor is Some && exists|i: int| is_first_stop(entries, cursor->0, i) {
        assert forall|i: int, j: int| #[trigger]
            is_first_stop(entries, cursor->0, i) && #[trigger] is_first_stop(
                entries,
                cursor->0,
                j,
            ) implies i == j by {
            if i < j {
                assert(has_bounds(entries[i]));
            } else if j < i {
                assert(has_bounds(entries[j]));
            }
        }
    } else if entries.len() > 0 {
        assert forall|i: int, j: int| #[trigger]
            is_default(entries, i) && #[trigger] is_default(entries, j) implies i == j by {
            let (p, q) = (entries[i].focused, entries[j].focused);
        }
    }
}

/// Where a monitor is under the cursor, one under the cursor is chosen, if the report has the
/// bounds of the monitors up to there and the names of those under the cursor.
pub proof fn law_monitor_under_cursor_is_chosen(
    entries: Seq<EntryView>,
    cursor: (i32, i32),
    i: int,
    chosen: Option<(Seq<char>, u64)>,
)
    requires
        0 <= i < entries.len(),
        under_cursor(entries[i], cursor),
        forall|j: int| 0 <= j <= i ==> has_bounds(#[trigger] entries[j]),
        forall|j: int|
            0 <= j <= i && under_cursor(#[trigger] entries[j], cursor) ==> entries[j].name is Some,
        is_choice(entries, Some(cursor), chosen),
    ensures
        exists|j: int|
            0 <= j <= i && under_cursor(#[trigger] entries[j], cursor) && chosen is Some && chosen
                == described(entries[j]),
    decreases i,
{
    if forall|j: int| 0 <= j < i ==> !under_cursor(#[trigger] entries[j], cursor) {
        assert(is_first_stop(entries, cursor, i));
        law_choice_is_unique(entries, Some(cursor), chosen, described(entries[i]));
    } else {
        let k = choose|k: int| 0 <= k < i && under_cursor(#[trigger] entries[k], cursor);
        law_monitor_under_cursor_is_chosen(entries, cursor, k, chosen);
    }
}

/// A monitor is under the cursor if the cursor is not beyond any of its sides; the far ones do not
/// belong to it. This is for monitors whose far sides are within 32 bits.
pub proof fn law_monitor_covers_its_rectangle(
    e: EntryView,
    cursor: (i32, i32),
    x: i32,
    y: i32,
    width: i32,
    height: i32,
)
    requires
        e.x == Some(x),
        e.y == Some(y),
        e.width == Some(width),
        e.height == Some(height),
        i32::MIN <= x + width <= i32::MAX,
        i32::MIN <= y + height <= i32::MAX,
    ensures
        under_cursor(e, cursor) <==> !(cursor.0 < x || cursor.0 >= x + width || cursor.1 < y
            || cursor.1 >= y + height),
{
}

/// The first monitor under the cursor is chosen, with its own name and scale, or the scale 1 where
/// it reports none. A monitor in front of it that lacks a bound, or its having no name, leaves
/// nothing chosen.
pub proof fn law_first_monitor_under_cursor_is_chosen(
    entries: Seq<EntryView>,
    cursor: (i32, i32),
    i: int,
    chosen: Option<(Seq<char>, u64)>,
)
    requires
        0 <= i < entries.len(),
        forall|j: int|
            0 <= j < i ==> (#[trigger] entries[j]).x is Some && entries[j].y is Some
                && entries[j].width is Some && entries[j].height is Some && !under_cursor(
                entries[j],
                cursor,
            ),
        is_choice(entries, Some(cursor), chosen),
    ensures
        under_cursor(entries[i], cursor) ==> match entries[i].name {
            Some(name) => chosen == Some(
                (
                    name,
                    match entries[i].scale_bits {
                        Some(bits) => bits,
                        None => 0x3ff0_0000_0000_0000,
                    },
                ),
            ),
            None => chosen is None,
        },
        entries[i].x is None || entries[i].y is None || entries[i].width is None
            || entries[i].height is None ==> chosen is None,
{
    if under_cursor(entries[i], cursor) || !has_bounds(entries[i]) {
        assert forall|j: int| 0 <= j < i implies has_bounds(#[trigger] entries[j])
            && !under_cursor(entries[j], cursor) by {
            assert(entries[j].x is Some);
        }
        assert(is_first_stop(entries, cursor, i));
        law_choice_is_unique(
            entries,
            Some(cursor),
            chosen,
            if has_bounds(entries[i]) {
                described(entries[i])
            } else {
                None
            },
        );
    }
}

/// With no position of the cursor, or with no monitor under it, the first focused monitor is
/// chosen, or the first of all where none has the focus, with its own name and scale.
pub proof fn law_focused_monitor_is_the_default(
    entries: Seq<EntryView>,
    cursor: Option<(i32, i32)>,
    i: int,
    chosen: Option<(Seq<char>, u64)>,
)
    requires
        is_choice(entries, cursor, chosen),
        cursor matches Some(at) ==> forall|j: int|
            0 <= j < entries.len() ==> (#[trigger] entries[j]).x is Some && entries[j].y is Some
                && entries[j].width is Some && entries[j].height is Some && !under_cursor(
                entries[j],
                at,
            ),
    ensures
        entries.len() == 0 ==> chosen is None,
        0 <= i < entries.len() && (entries[i].focused || i == 0) && (forall|j: int|
            0 <= j < i ==> !(#[trigger] entries[j]).focused) && (entries[i].focused || forall|j: int|
            0 <= j < entries.len() ==> !(#[trigger] entries[j]).focused) ==> match entries[i].name {
            Some(name) => chosen == Some(
                (
                    name,
                    match entries[i].scale_bits {
                        Some(bits) => bits,
                        None => 0x3ff0_0000_0000_0000,
                    },
                ),
            ),
            None => chosen is None,
        },
{
    if let Some(at) = cursor {
        assert forall|j: int| !is_first_stop(entries, at, j) by {
            if 0 <= j < entries.len() {
                assert(entries[j].x is Some);
            }
        }
    }
    if 0 <= i < entries.len() && (entries[i].focused || i == 0) && (forall|j: int|
        0 <= j < i ==> !(#[trigger] entries[j]).focused) && (entries[i].focused || forall|j: int|
        0 <= j < entries.len() ==> !(#[trigger] entries[j]).focused) {
        assert(is_default(entries, i));
        law_choice_is_unique(entries, cursor, chosen, described(entries[i]));
    }
}

/// What is read of a monitor is what the report says of it, each thing under its own key: a bound
/// that is an integer of 32 bits is that integer, one that is no integer is 0, and one that is
/// not there is absent. The name is a string, the scale a number, and the focus needs a plain true.
pub proof fn law_monitor_is_read_by_its_keys(
    members: Map<Seq<char>, Json>,
    n: i32,
    bits: u64,
    name: Seq<char>,
)
    ensures
        ({
            let e = entry_of(Json::Object(members));
            let number = Json::Number { integer: Some(n as i64), bits };
            &&& !members.contains_key("x"@) <==> e.x is None
            &&& !members.contains_key("y"@) <==> e.y is None
            &&& !members.contains_key("width"@) <==> e.width is None
            &&& !members.contains_key("height"@) <==> e.height is None
            &&& members.contains_key("x"@) && members["x"@] == number ==> e.x == Some(n)
            &&& members.contains_key("y"@) && members["y"@] == number ==> e.y == Some(n)
            &&& members.contains_key("width"@) && members["width"@] == number ==> e.width == Some(n)
            &&& members.contains_key("height"@) && members["height"@] == number ==> e.height
                == Some(n)
            &&& members.contains_key("x"@) && members["x"@].integer() is None ==> e.x == Some(0i32)
            &&& members.contains_key("y"@) && members["y"@].integer() is None ==> e.y == Some(0i32)
            &&& members.contains_key("width"@) && members["width"@].integer() is None ==> e.width
                == Some(0i32)
            &&& members.contains_key("height"@) && members["height"@].integer() is None ==> e.height
                == Some(0i32)
            &&& e.name == Some(name) <==> members.contains_key("name"@) && members["name"@]
                == Json::Text(name)
            &&& e.scale_bits == Some(bits) <==> members.contains_key("scale"@) && (
            members["scale"@] matches Json::Number { bits: b, .. } && b == bits)
            &&& e.focused <==> members.contains_key("focused"@) && members["focused"@]
                == Json::Bool(true)
        }),
{
}

/// The kinds of JSON values are told apart: only a number has an integer or a floating-point
/// value, only a string a text, only a boolean a truth value, only an object members.
pub proof fn law_json_kinds_are_told_apart(v: Json, key: Seq<char>)
    ensures
        v matches Json::Number { integer: n, .. } ==> v.integer() == n,
        v !is Number ==> v.integer() is None,
        v.float_bits() is Some <==> v is Number,
        v.text() is Some <==> v is Text,
        v.boolean() is Some <==> v is Bool,
        v.member(key) is Some <==> (v matches Json::Object(members) && members.contains_key(key)),
        v matches Json::Number { bits: b, .. } ==> v.float_bits() == Some(b),
        v matches Json::Text(s) ==> v.text() == Some(s),
        v matches Json::Bool(b) ==> v.boolean() == Some(b),
        v matches Json::Object(members) ==> members.contains_key(key) ==> v.member(key) == Some(
            members[key],
        ),
{
}

/// Reports are read whole: the monitors are all the elements of the array, in order, and the
/// cursor is where both of its numbers say, if both are there.
pub proof fn law_reports_are_read_whole(items: Seq<Json>, i: int, doc: Json, x: u64, y: u64)
    ensures
        entries_of(Some(Json::Array(items))) matches Some(entries) && entries.len() == items.len()
            && (0 <= i < items.len() ==> entries[i] == entry_of(items[i])),
        doc !is Array ==> entries_of(Some(doc)) is None,
        entries_of(None) is None,
        cursor_of(None) is None,
        cursor_of(Some(doc)) == Some((x, y)) <==> (doc matches Json::Object(members)
            && members.contains_key("x"@) && members.contains_key("y"@)
            && members["x"@].float_bits() == Some(x) && members["y"@].float_bits() == Some(y)),
{
}

/// What is told of an entry is what its fields hold.
pub proof fn law_entries_show_their_fields(entries: Seq<MonitorEntry>, m: MonitorInfo, i: int)
    requires
        0 <= i < entries.len(),
    ensures
        entry_views(entries).len() == entries.len(),
        ({
            let (e, v) = (entries[i], entry_views(entries)[i]);
            &&& v == e@
            &&& v.x == e.x && v.y == e.y && v.width == e.width && v.height == e.height
            &&& e.name is None <==> v.name is None
            &&& e.name matches Some(name) ==> v.name == Some(name@)
            &&& v.scale_bits == e.scale_bits && v.focused == e.focused
        }),
        m@.0 == m.name@,
        m@.1 == m.scale_bits,
{
}

} // verus!
