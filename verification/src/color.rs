//! Colors as hexadecimal text.

use crate::screenshot::{Rgb, Screenshot};
use crate::text::{is_white_space, lemma_trim_end, lemma_trim_start, trim, trimmed};
use vstd::prelude::*;

verus! {

/// The upper-case hexadecimal digit of `d`.
pub open spec fn hex_digit(d: int) -> char {
    if d < 10 {
        ('0' as int + d) as char
    } else {
        ('A' as int + (d - 10)) as char
    }
}

/// What a hexadecimal digit of either case stands for.
pub open spec fn hex_value(c: char) -> Option<int> {
    if '0' <= c <= '9' {
        Some(c as int - '0' as int)
    } else if 'a' <= c <= 'f' {
        Some(c as int - 'a' as int + 10)
    } else if 'A' <= c <= 'F' {
        Some(c as int - 'A' as int + 10)
    } else {
        None
    }
}

/// A color as a number sign and two upper-case digits for each channel.
pub open spec fn hex_text(c: Rgb) -> Seq<char> {
    seq![
        '#',
        hex_digit(c.0 as int / 16),
        hex_digit(c.0 as int % 16),
        hex_digit(c.1 as int / 16),
        hex_digit(c.1 as int % 16),
        hex_digit(c.2 as int / 16),
        hex_digit(c.2 as int % 16),
    ]
}

/// The channel that two characters hold: two hexadecimal digits, or a plus sign and one.
pub open spec fn hex_channel(a: char, b: char) -> Option<u8> {
    if a == '+' {
        match hex_value(b) {
            Some(d) => Some(d as u8),
            None => None,
        }
    } else {
        match (hex_value(a), hex_value(b)) {
            (Some(d), Some(e)) => Some((d * 16 + e) as u8),
            _ => None,
        }
    }
}

/// `s` without the number signs in front.
pub open spec fn strip_number_signs(s: Seq<char>) -> Seq<char>
    decreases s.len(),
{
    if s.len() > 0 && s[0] == '#' {
        strip_number_signs(s.skip(1))
    } else {
        s
    }
}

/// The color that a text starts with, white space around it and number signs in front of it
/// aside: six characters that hold three channels.
pub open spec fn hex_color(s: Seq<char>) -> Option<Rgb> {
    let t = strip_number_signs(trimmed(s));
    if t.len() < 6 {
        None
    } else {
        match (hex_channel(t[0], t[1]), hex_channel(t[2], t[3]), hex_channel(t[4], t[5])) {
            (Some(r), Some(g), Some(b)) => Some((r, g, b)),
            _ => None,
        }
    }
}

fn digit(d: u8) -> (r: char)
    requires
        d < 16,
    ensures
        r == hex_digit(d as int),
{
    if d < 10 {
        (48 + d) as char
    } else {
        (55 + d) as char
    }
}

/// Writes a color as a number sign and six digits.
pub fn hex_string(c: Rgb) -> (r: String)
    ensures
        r@ == hex_text(c),
{
    let mut out = String::new();
    out.push('#');
    out.push(digit(c.0 / 16));
    out.push(digit(c.0 % 16));
    out.push(digit(c.1 / 16));
    out.push(digit(c.1 % 16));
    out.push(digit(c.2 / 16));
    out.push(digit(c.2 % 16));
    assert(out@ =~= hex_text(c));
    out
}

/// The color at `x`, `y` of the image as text, or `None` outside the image.
pub fn pixel_hex(img: &Screenshot, x: u32, y: u32) -> (r: Option<String>)
    requires
        img.inv(),
    ensures
        r is Some <==> img.covers(x as int, y as int),
        r matches Some(s) ==> s@ == hex_text(img.rgb(x as int, y as int)),
{
    match img.rgb_at(x, y) {
        Some(c) => Some(hex_string(c)),
        None => None,
    }
}

fn value(c: char) -> (r: Option<u8>)
    ensures
        r is Some <==> hex_value(c) is Some,
        r matches Some(d) ==> hex_value(c) == Some(d as int) && d < 16,
{
    let code: u32 = c as u32;
    if 48 <= code && code <= 57 {
        Some((code - 48) as u8)
    } else if 97 <= code && code <= 102 {
        Some((code - 87) as u8)
    } else if 65 <= code && code <= 70 {
        Some((code - 55) as u8)
    } else {
        None
    }
}

fn channel(a: char, b: char) -> (r: Option<u8>)
    ensures
        r == hex_channel(a, b),
{
    let low = value(b);
    if a == '+' {
        return low;
    }
    match (value(a), low) {
        (Some(d), Some(e)) => Some(d * 16 + e),
        _ => None,
    }
}

/// Reads a color as the theme gives it.
pub fn parse_hex_color(s: &str) -> (r: Option<Rgb>)
    ensures
        r == hex_color(s@),
{
    let t = trim(s);
    let mut start: usize = 0;
    assert(t@.skip(0) =~= t@);
    while start < t.len() && t[start] == '#'
        invariant
            start <= t@.len(),
            strip_number_signs(t@) == strip_number_signs(t@.skip(start as int)),
        decreases t@.len() - start,
    {
        assert(t@.skip(start as int).skip(1) =~= t@.skip(start + 1));
        start = start + 1;
    }
    assert(strip_number_signs(t@) == t@.skip(start as int));
    if t.len() - start < 6 {
        return None;
    }
    let r = channel(t[start], t[start + 1]);
    let g = channel(t[start + 2], t[start + 3]);
    let b = channel(t[start + 4], t[start + 5]);
    match (r, g, b) {
        (Some(r), Some(g), Some(b)) => Some((r, g, b)),
        _ => None,
    }
}

// Laws

/// Whether the six characters are the digits of a color, in either case.
pub open spec fn spells(digits: Seq<char>, c: Rgb) -> bool {
    &&& digits.len() == 6
    &&& hex_value(digits[0]) == Some(c.0 as int / 16)
    &&& hex_value(digits[1]) == Some(c.0 as int % 16)
    &&& hex_value(digits[2]) == Some(c.1 as int / 16)
    &&& hex_value(digits[3]) == Some(c.1 as int % 16)
    &&& hex_value(digits[4]) == Some(c.2 as int / 16)
    &&& hex_value(digits[5]) == Some(c.2 as int % 16)
}

/// The digits of a color are read as that color: in either case, with or without number signs in
/// front, and with or without white space around.
pub proof fn law_digits_are_read_as_color(
    before: Seq<char>,
    signs: Seq<char>,
    digits: Seq<char>,
    after: Seq<char>,
    c: Rgb,
)
    requires
        forall|i: int| 0 <= i < before.len() ==> is_white_space(#[trigger] before[i]),
        forall|i: int| 0 <= i < signs.len() ==> (#[trigger] signs[i]) == '#',
        spells(digits, c),
        forall|i: int| 0 <= i < after.len() ==> is_white_space(#[trigger] after[i]),
    ensures
        hex_color(before + signs + digits + after) == Some(c),
{
    let middle = signs + digits;
    assert(!is_white_space(middle[0]));
    assert(!is_white_space(middle.last()));
    assert(before + signs + digits + after =~= before + (middle + after));
    lemma_trim_start(before, middle + after);
    lemma_trim_end(middle, after);
    lemma_strip_number_signs(signs, digits);
}

/// A color that was written as text is read back as itself.
pub proof fn law_hex_color_reads_back(c: Rgb)
    ensures
        spells(hex_text(c).skip(1), c),
        hex_color(hex_text(c)) == Some(c),
{
    let digits = hex_text(c).skip(1);
    law_digits_are_read_as_color(seq![], seq!['#'], digits, seq![], c);
    assert(seq![] + seq!['#'] + digits + seq![] =~= hex_text(c));
}

proof fn lemma_strip_number_signs(signs: Seq<char>, rest: Seq<char>)
    requires
        forall|i: int| 0 <= i < signs.len() ==> (#[trigger] signs[i]) == '#',
        rest.len() > 0,
        rest[0] != '#',
    ensures
        strip_number_signs(signs + rest) == rest,
    decreases signs.len(),
{
    if signs.len() == 0 {
        assert(signs + rest =~= rest);
    } else {
        assert(signs[0] == '#');
        assert((signs + rest).skip(1) =~= signs.skip(1) + rest);
        lemma_strip_number_signs(signs.skip(1), rest);
    }
}

/// A color is written with a number sign and six digits from 0 to 9 and upper-case A to F, two
/// for each of red, green and blue in this order, the higher one first.
pub proof fn law_hex_text_is_upper_case(c: Rgb, i: int)
    ensures
        hex_text(c).len() == 7,
        hex_text(c)[0] == '#',
        1 <= i < 7 ==> '0' <= hex_text(c)[i] <= '9' || 'A' <= hex_text(c)[i] <= 'F',
        hex_value(hex_text(c)[1])->0 * 16 + hex_value(hex_text(c)[2])->0 == c.0,
        hex_value(hex_text(c)[3])->0 * 16 + hex_value(hex_text(c)[4])->0 == c.1,
        hex_value(hex_text(c)[5])->0 * 16 + hex_value(hex_text(c)[6])->0 == c.2,
{
}

/// A digit stands for its place: 0 to 9 for themselves, a to f in either case for what follows,
/// and no other character is one.
pub proof fn law_hex_digits_count_to_fifteen(c: char)
    ensures
        hex_value(c) is Some <==> '0' <= c <= '9' || 'a' <= c <= 'f' || 'A' <= c <= 'F',
        hex_value(c) matches Some(d) ==> 0 <= d < 16 && (c as int == 48 + d || c as int == 87 + d
            || c as int == 55 + d) && (d < 10 <==> '0' <= c <= '9'),
{
}

/// What is read as a color has it in the first six characters behind white space and number
/// signs: a text with fewer, or with a character among them that is neither a digit nor a plus
/// sign, is no color. So is one whose channel is no two digits and no plus sign with a digit.
pub proof fn law_only_digits_are_read_as_color(
    before: Seq<char>,
    signs: Seq<char>,
    rest: Seq<char>,
    after: Seq<char>,
    i: int,
)
    requires
        forall|k: int| 0 <= k < before.len() ==> is_white_space(#[trigger] before[k]),
        forall|k: int| 0 <= k < signs.len() ==> (#[trigger] signs[k]) == '#',
        forall|k: int| 0 <= k < after.len() ==> is_white_space(#[trigger] after[k]),
        rest.len() > 0,
        rest[0] != '#',
        !is_white_space(rest[0]),
        !is_white_space(rest.last()),
    ensures
        rest.len() < 6 ==> hex_color(before + signs + rest + after) is None,
        rest.len() >= 6 && (i == 1 || i == 3 || i == 5) && hex_value(rest[i]) is None ==> hex_color(
            before + signs + rest + after,
        ) is None,
        rest.len() >= 6 && (i == 0 || i == 2 || i == 4) && hex_value(rest[i]) is None && rest[i]
            != '+' ==> hex_color(before + signs + rest + after) is None,
        hex_color(before + signs + rest + after) matches Some(c) ==> {
            &&& rest[0] != '+' ==> c.0 == hex_value(rest[0])->0 * 16 + hex_value(rest[1])->0
            &&& rest[2] != '+' ==> c.1 == hex_value(rest[2])->0 * 16 + hex_value(rest[3])->0
            &&& rest[4] != '+' ==> c.2 == hex_value(rest[4])->0 * 16 + hex_value(rest[5])->0
            &&& rest[0] == '+' ==> c.0 == hex_value(rest[1])->0
            &&& rest[2] == '+' ==> c.1 == hex_value(rest[3])->0
            &&& rest[4] == '+' ==> c.2 == hex_value(rest[5])->0
        },
{
    let middle = signs + rest;
    assert(!is_white_space(middle[0]));
    assert(!is_white_space(middle.last()));
    assert(before + signs + rest + after =~= before + (middle + after));
    lemma_trim_start(before, middle + after);
    lemma_trim_end(middle, after);
    lemma_strip_number_signs(signs, rest);
}

} // verus!
