//! Commands, file names and values handed to and read from other programs.

use crate::text::{
    chars_of, decimal, is_digit, is_white_space, law_decimal_reads_back, lemma_trim_end,
    lemma_trim_start, parse_u32, string_of, trim, trimmed, u32_of,
};
use vstd::prelude::*;
use vstd::string::*;

verus! {

/// The name under which the program's files go.
pub open spec fn app_name() -> Seq<char> {
    "omaruler"@
}

// Quoting

/// `s` with every single quote replaced by one that closes the quotes, an escaped one, and one
/// that opens them again.
pub open spec fn escaped(s: Seq<char>) -> Seq<char>
    decreases s.len(),
{
    if s.len() == 0 {
        seq![]
    } else {
        escaped(s.drop_last()) + if s.last() == '\'' {
            seq!['\'', '\\', '\'', '\'']
        } else {
            seq![s.last()]
        }
    }
}

/// `s` in single quotes, as one word for `sh`.
pub open spec fn quoted(s: Seq<char>) -> Seq<char> {
    seq!['\''] + escaped(s) + seq!['\'']
}

/// Quotes `s` as one word for `sh`.
pub fn shell_quote(s: &str) -> (r: String)
    ensures
        r@ == quoted(s@),
{
    let chars = chars_of(s);
    let mut out = String::new();
    out.push('\'');
    let mut i: usize = 0;
    assert(chars@.take(0) =~= seq![]);
    assert(out@ =~= seq!['\''] + escaped(chars@.take(0)));
    while i < chars.len()
        invariant
            i <= chars@.len(),
            out@ == seq!['\''] + escaped(chars@.take(i as int)),
        decreases chars@.len() - i,
    {
        let c = chars[i];
        let ghost before = out@;
        if c == '\'' {
            out.push('\'');
            out.push('\\');
            out.push('\'');
            out.push('\'');
        } else {
            out.push(c);
        }
        i = i + 1;
        proof {
            let longer = chars@.take(i as int);
            assert(longer.drop_last() =~= chars@.take(i - 1));
            assert(longer.last() == c);
            assert(out@ =~= seq!['\''] + escaped(longer));
        }
    }
    assert(chars@.take(i as int) =~= s@);
    out.push('\'');
    assert(out@ =~= quoted(s@));
    out
}

/// The word that `sh` reads from a text made of single-quoted stretches and escaped single
/// characters, `None` for a text of any other make.
pub open spec fn shell_word(s: Seq<char>, in_quotes: bool) -> Option<Seq<char>>
    decreases s.len(),
{
    if in_quotes {
        if s.len() == 0 {
            None
        } else if s[0] == '\'' {
            shell_word(s.skip(1), false)
        } else {
            match shell_word(s.skip(1), true) {
                Some(rest) => Some(seq![s[0]] + rest),
                None => None,
            }
        }
    } else {
        if s.len() == 0 {
            Some(seq![])
        } else if s[0] == '\'' {
            shell_word(s.skip(1), true)
        } else if s.len() >= 2 && s[0] == '\\' && s[1] != '\n' {
            match shell_word(s.skip(2), false) {
                Some(rest) => Some(seq![s[1]] + rest),
                None => None,
            }
        } else {
            None
        }
    }
}

// The editor command

/// The command line that opens a file in the editor and then removes it.
pub open spec fn editor_command_line(path: Seq<char>) -> Seq<char> {
    "omasnap --file "@ + quoted(path) + "; rm -f "@ + quoted(path)
}

/// The command line for `sh` that opens `path` in the editor and removes it once the editor
/// is closed.
pub fn editor_command(path: &str) -> (r: String)
    ensures
        r@ == editor_command_line(path@),
{
    let word = shell_quote(path);
    let mut out: String = "omasnap --file ".to_owned();
    out.append(word.as_str());
    out.append("; rm -f ");
    out.append(word.as_str());
    out
}

// File names

/// The name of the file for a selection taken at `time`.
pub open spec fn file_name_of(time: Seq<char>) -> Seq<char> {
    app_name() + "-"@ + time + ".png"@
}

/// The name of the file for a selection taken at `time`.
pub fn selection_file_name(time: &str) -> (r: String)
    ensures
        r@ == file_name_of(time@),
{
    let mut out: String = "omaruler".to_owned();
    out.append("-");
    out.append(time);
    out.append(".png");
    out
}

/// The name of the file that a sound is kept in.
pub fn sound_file_name(sound: &str) -> (r: String)
    ensures
        r@ == app_name() + "-sound-"@ + sound@ + ".wav"@,
{
    let mut out: String = "omaruler".to_owned();
    out.append("-sound-");
    out.append(sound);
    out.append(".wav");
    out
}

/// The directory that selections are saved in.
pub fn screenshots_dir(home: &str) -> (r: String)
    ensures
        r@ == home@ + "/Pictures/Screenshots"@,
{
    let mut out: String = home.to_owned();
    out.append("/Pictures/Screenshots");
    out
}

/// The path under which a selection taken at `time` is saved.
pub fn screenshot_path(home: &str, time: &str) -> (r: String)
    ensures
        r@ == home@ + "/Pictures/Screenshots"@ + "/"@ + file_name_of(time@),
{
    let mut out = screenshots_dir(home);
    out.append("/");
    out.append(selection_file_name(time).as_str());
    out
}

/// The time to put in a file name: what the clock command printed without the white space
/// around it, or a fixed word where it printed nothing readable.
pub fn timestamp(printed: Option<&str>) -> (r: String)
    ensures
        r@ == (match printed {
            Some(s) => trimmed(s@),
            None => "output"@,
        }),
{
    match printed {
        Some(s) => string_of(&trim(s)),
        None => "output".to_owned(),
    }
}

// The high score

/// The high score that a file holds: a number with white space around it, else 0.
pub open spec fn high_score_of(s: Seq<char>) -> u32 {
    match u32_of(trimmed(s)) {
        Some(n) => n,
        None => 0,
    }
}

/// Reads the high score file, 0 where there is none.
pub fn parse_high_score(file: Option<&str>) -> (r: u32)
    ensures
        r == (match file {
            Some(s) => high_score_of(s@),
            None => 0,
        }),
{
    match file {
        Some(s) => match parse_u32(&trim(s)) {
            Some(n) => n,
            None => 0,
        },
        None => 0,
    }
}

// Laws

proof fn lemma_escaped_word(s: Seq<char>, rest: Seq<char>)
    ensures
        shell_word(escaped(s) + rest, true) == (match shell_word(rest, true) {
            Some(w) => Some(s + w),
            None => None::<Seq<char>>,
        }),
    decreases s.len(),
{
    if s.len() == 0 {
        assert(escaped(s) + rest =~= rest);
        if let Some(w) = shell_word(rest, true) {
            assert(s + w =~= w);
        }
    } else {
        let c = s.last();
        let part: Seq<char> = if c == '\'' {
            seq!['\'', '\\', '\'', '\'']
        } else {
            seq![c]
        };
        let tail = part + rest;
        assert(escaped(s) + rest =~= escaped(s.drop_last()) + tail);
        lemma_escaped_word(s.drop_last(), tail);
        if c == '\'' {
            assert(tail.skip(1) =~= seq!['\\', '\'', '\''] + rest);
            assert(tail.skip(1).skip(2) =~= seq!['\''] + rest);
            assert(tail.skip(1).skip(2).skip(1) =~= rest);
            assert(shell_word(tail, true) == shell_word(tail.skip(1), false));
            assert(shell_word(tail.skip(1).skip(2), false) == shell_word(rest, true));
        } else {
            assert(tail.skip(1) =~= rest);
        }
        if let Some(w) = shell_word(rest, true) {
            assert(s.drop_last() + (seq![c] + w) =~= s + w);
        }
    }
}

/// A quoted text is read back by `sh` as one word, the text itself, whatever characters it
/// holds.
pub proof fn law_quoted_text_is_one_word(s: Seq<char>)
    ensures
        shell_word(quoted(s), false) == Some(s),
{
    assert(quoted(s).skip(1) =~= escaped(s) + seq!['\'']);
    lemma_escaped_word(s, seq!['\'']);
    assert(seq!['\''].skip(1) =~= seq![]);
    assert(shell_word(seq!['\''], true) == Some(Seq::<char>::empty())) by {
        assert(shell_word(seq!['\''].skip(1), false) == Some(Seq::<char>::empty()));
    }
    assert(s + Seq::<char>::empty() =~= s);
}

/// A high score that was saved is loaded again, with or without white space around.
pub proof fn law_high_score_reads_back(n: u32, before: Seq<char>, after: Seq<char>)
    requires
        forall|i: int| 0 <= i < before.len() ==> is_white_space(#[trigger] before[i]),
        forall|i: int| 0 <= i < after.len() ==> is_white_space(#[trigger] after[i]),
    ensures
        high_score_of(before + decimal(n as int) + after) == n,
        high_score_of(decimal(n as int)) == n,
{
    law_decimal_reads_back(n);
    let d = decimal(n as int);
    assert(is_digit(d[0]) && is_digit(d.last()));
    assert(!is_white_space(d[0]) && !is_white_space(d.last()));
    lemma_trim_start(before, d + after);
    lemma_trim_end(d, after);
    assert(before + d + after =~= before + (d + after));
    assert(trimmed(d) == d);
}

/// The command line names the file twice, each time as one word of `sh` that is the path, whatever
/// characters it holds: once for the editor and then to remove it.
pub proof fn law_editor_command_names_the_file(path: Seq<char>)
    ensures
        exists|word: Seq<char>|
            {
                &&& #[trigger] shell_word(word, false) == Some(path)
                &&& editor_command_line(path) == "omasnap --file "@ + word + "; rm -f "@ + word
            },
{
    law_quoted_text_is_one_word(path);
    assert(shell_word(quoted(path), false) == Some(path));
}

/// The name of a file holds the time, between the name of the program and the ending. So
/// selections of different times go to different files.
pub proof fn law_file_name_holds_the_time(time: Seq<char>, other: Seq<char>)
    ensures
        file_name_of(time).take("omaruler-"@.len() as int) == "omaruler-"@,
        file_name_of(time).subrange(
            "omaruler-"@.len() as int,
            file_name_of(time).len() - ".png"@.len(),
        ) == time,
        file_name_of(time).skip(file_name_of(time).len() - ".png"@.len()) == ".png"@,
        app_name() == "omaruler"@,
        file_name_of(time) == file_name_of(other) ==> time == other,
{
    reveal_strlit("omaruler-");
    reveal_strlit("omaruler");
    reveal_strlit("-");
    reveal_strlit(".png");
    let (a, b) = (file_name_of(time), file_name_of(other));
    assert(a.take("omaruler-"@.len() as int) =~= "omaruler-"@);
    assert(a.subrange("omaruler-"@.len() as int, a.len() - ".png"@.len()) =~= time);
    assert(b.subrange("omaruler-"@.len() as int, b.len() - ".png"@.len()) =~= other);
    assert(a.skip(a.len() - ".png"@.len()) =~= ".png"@);
}

/// A file that holds no number is as good as none: the high score is 0.
pub proof fn law_high_score_needs_a_number(s: Seq<char>)
    ensures
        u32_of(trimmed(s)) is None ==> high_score_of(s) == 0,
        u32_of(trimmed(s)) matches Some(n) ==> high_score_of(s) == n,
{
}

proof fn lemma_escaped_joins(a: Seq<char>, b: Seq<char>)
    ensures
        escaped(a + b) == escaped(a) + escaped(b),
    decreases b.len(),
{
    if b.len() == 0 {
        assert(a + b =~= a);
        assert(escaped(a) + escaped(b) =~= escaped(a));
    } else {
        lemma_escaped_joins(a, b.drop_last());
        assert((a + b).drop_last() =~= a + b.drop_last());
        assert(escaped(a + b) =~= escaped(a) + escaped(b));
    }
}

/// Quoting puts single quotes around a text and replaces the single quotes in it, each on its own,
/// by one that closes, an escaped one and one that opens. Every other character stays.
pub proof fn law_quoting_replaces_only_quotes(a: Seq<char>, b: Seq<char>, c: char)
    ensures
        quoted(a)[0] == '\'',
        quoted(a).last() == '\'',
        quoted(a).len() >= 2,
        quoted(a + b).subrange(1, quoted(a + b).len() - 1) == quoted(a).subrange(
            1,
            quoted(a).len() - 1,
        ) + quoted(b).subrange(1, quoted(b).len() - 1),
        quoted(seq![]) == seq!['\'', '\''],
        c != '\'' ==> quoted(seq![c]) == seq!['\'', c, '\''],
        quoted(seq!['\'']) == seq!['\'', '\'', '\\', '\'', '\'', '\''],
{
    lemma_escaped_joins(a, b);
    assert(quoted(a).subrange(1, quoted(a).len() - 1) =~= escaped(a));
    assert(quoted(b).subrange(1, quoted(b).len() - 1) =~= escaped(b));
    assert(quoted(a + b).subrange(1, quoted(a + b).len() - 1) =~= escaped(a + b));
    reveal_with_fuel(escaped, 2);
    assert(seq![c].drop_last() =~= seq![]);
    assert(seq!['\''].drop_last() =~= seq![]);
    assert(quoted(seq![]) =~= seq!['\'', '\'']);
    assert(c != '\'' ==> quoted(seq![c]) =~= seq!['\'', c, '\'']);
    assert(quoted(seq!['\'']) =~= seq!['\'', '\'', '\\', '\'', '\'', '\'']);
}

} // verus!
