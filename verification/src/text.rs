//! Text: numbers read and written in decimal, and trimming.

use vstd::prelude::*;
use vstd::string::*;

verus! {

broadcast use vstd::string::axiom_spec_iter;

/// `String::push` appends the given character.
pub assume_specification[ String::push ](s: &mut String, c: char)
    ensures
        final(s)@ == old(s)@.push(c),
;

/// The characters of `s`, in order.
pub fn chars_of(s: &str) -> (r: Vec<char>)
    ensures
        r@ == s@,
{
    let mut out: Vec<char> = Vec::new();
    for c in it: s.chars()
        invariant
            it.seq() == s@,
            out@ == s@.take(it.index() as int),
    {
        out.push(c);
    }
    assert(s@.take(s@.len() as int) == s@);
    out
}

/// The string made of the characters `chars`.
pub fn string_of(chars: &Vec<char>) -> (r: String)
    ensures
        r@ == chars@,
{
    let mut out = String::new();
    let mut i: usize = 0;
    while i < chars.len()
        invariant
            i <= chars.len(),
            out@ == chars@.take(i as int),
        decreases chars.len() - i,
    {
        out.push(chars[i]);
        i = i + 1;
        assert(chars@.take(i as int) == chars@.take(i - 1).push(chars@[i - 1]));
    }
    assert(chars@.take(chars.len() as int) == chars@);
    out
}

// Decimal numbers

/// The character of the decimal digit `d`.
pub open spec fn digit_char(d: int) -> char {
    ('0' as int + d) as char
}

pub open spec fn is_digit(c: char) -> bool {
    '0' <= c <= '9'
}

/// `n` written in decimal, without leading zeros.
pub open spec fn decimal(n: int) -> Seq<char>
    decreases n,
{
    if n < 10 {
        seq![digit_char(n)]
    } else {
        decimal(n / 10).push(digit_char(n % 10))
    }
}

/// The number that a run of digits stands for.
pub open spec fn digits_value(s: Seq<char>) -> int
    decreases s.len(),
{
    if s.len() == 0 {
        0
    } else {
        digits_value(s.drop_last()) * 10 + (s.last() as int - '0' as int)
    }
}

pub open spec fn all_digits(s: Seq<char>) -> bool {
    forall|i: int| 0 <= i < s.len() ==> is_digit(#[trigger] s[i])
}

/// `s` without one leading plus sign, where it has one.
pub open spec fn without_plus(s: Seq<char>) -> Seq<char> {
    if s.len() > 0 && s[0] == '+' {
        s.skip(1)
    } else {
        s
    }
}

/// The number that `s` holds: an optional plus sign, then one or more digits whose value fits
/// in 32 bits, and nothing else.
pub open spec fn u32_of(s: Seq<char>) -> Option<u32> {
    let d = without_plus(s);
    if d.len() > 0 && all_digits(d) && digits_value(d) <= u32::MAX {
        Some(digits_value(d) as u32)
    } else {
        None
    }
}

/// Writes `n` in decimal.
pub fn decimal_string(n: u32) -> (r: String)
    ensures
        r@ == decimal(n as int),
    decreases n,
{
    let digit: char = (48 + (n % 10) as u8) as char;
    if n < 10 {
        let mut out = String::new();
        out.push(digit);
        assert(out@ == decimal(n as int));
        out
    } else {
        let mut out = decimal_string(n / 10);
        out.push(digit);
        out
    }
}

proof fn lemma_digits_value_prefix(s: Seq<char>, n: int)
    requires
        0 <= n <= s.len(),
        all_digits(s),
    ensures
        0 <= digits_value(s.take(n)) <= digits_value(s),
    decreases s.len() - n,
{
    if n < s.len() {
        lemma_digits_value_prefix(s, n + 1);
        assert(s.take(n + 1).drop_last() == s.take(n));
        assert(is_digit(s[n]));
        lemma_digits_value_nonneg(s.take(n));
    } else {
        assert(s.take(n) == s);
        lemma_digits_value_nonneg(s);
    }
}

proof fn lemma_digits_value_nonneg(s: Seq<char>)
    requires
        all_digits(s),
    ensures
        digits_value(s) >= 0,
    decreases s.len(),
{
    if s.len() > 0 {
        assert(is_digit(s.last()));
        assert forall|i: int| 0 <= i < s.drop_last().len() implies is_digit(
            #[trigger] s.drop_last()[i],
        ) by {
            assert(is_digit(s[i]));
        }
        lemma_digits_value_nonneg(s.drop_last());
    }
}

/// Reads a 32-bit number: an optional plus sign followed by digits.
pub fn parse_u32(s: &Vec<char>) -> (r: Option<u32>)
    ensures
        r == u32_of(s@),
{
    let start: usize = if s.len() > 0 && s[0] == '+' {
        1
    } else {
        0
    };
    let ghost d = without_plus(s@);
    assert(d == s@.skip(start as int));
    if start == s.len() {
        return None;
    }
    let mut value: u32 = 0;
    let mut i: usize = start;
    while i < s.len()
        invariant
            start <= i <= s.len(),
            d == s@.skip(start as int),
            d == without_plus(s@),
            d.len() > 0,
            all_digits(d.take(i - start)),
            value == digits_value(d.take(i - start)),
        decreases s.len() - i,
    {
        let c = s[i];
        assert(d[i - start] == c);
        if !('0' <= c && c <= '9') {
            return None;
        }
        let digit: u32 = c as u32 - '0' as u32;
        let ghost longer = d.take(i - start + 1);
        assert(longer.drop_last() == d.take(i - start));
        assert(all_digits(longer)) by {
            assert forall|k: int| 0 <= k < longer.len() implies is_digit(#[trigger] longer[k]) by {
                if k < i - start {
                    assert(is_digit(d.take(i - start)[k]));
                }
            }
        }
        let wide: u64 = value as u64 * 10 + digit as u64;
        assert(wide == digits_value(longer));
        if wide > u32::MAX as u64 {
            proof {
                if all_digits(d) {
                    lemma_digits_value_prefix(d, i - start + 1);
                }
            }
            return None;
        }
        value = wide as u32;
        i = i + 1;
    }
    assert(d.take(d.len() as int) == d);
    Some(value)
}

proof fn lemma_decimal(n: int)
    requires
        n >= 0,
    ensures
        decimal(n).len() > 0,
        all_digits(decimal(n)),
        digits_value(decimal(n)) == n,
    decreases n,
{
    if n < 10 {
        assert(decimal(n).drop_last() =~= seq![]);
        assert(digits_value(seq![]) == 0);
    } else {
        lemma_decimal(n / 10);
        assert(decimal(n).drop_last() =~= decimal(n / 10));
        assert forall|i: int| 0 <= i < decimal(n).len() implies is_digit(
            #[trigger] decimal(n)[i],
        ) by {
            if i < decimal(n).len() - 1 {
                assert(is_digit(decimal(n / 10)[i]));
            }
        }
    }
}

/// A number that was written in decimal is read back as itself.
pub proof fn law_decimal_reads_back(n: u32)
    ensures
        decimal(n as int).len() > 0,
        all_digits(decimal(n as int)),
        u32_of(decimal(n as int)) == Some(n),
{
    lemma_decimal(n as int);
    assert(is_digit(decimal(n as int)[0]));
}

// Trimming

/// Whether `c` has the Unicode property `White_Space`.
pub open spec fn is_white_space(c: char) -> bool {
    let code = c as int;
    ||| 0x9 <= code <= 0xd
    ||| code == 0x20
    ||| code == 0x85
    ||| code == 0xa0
    ||| code == 0x1680
    ||| 0x2000 <= code <= 0x200a
    ||| code == 0x2028
    ||| code == 0x2029
    ||| code == 0x202f
    ||| code == 0x205f
    ||| code == 0x3000
}

/// `s` without its leading white space.
pub open spec fn trim_start(s: Seq<char>) -> Seq<char>
    decreases s.len(),
{
    if s.len() > 0 && is_white_space(s[0]) {
        trim_start(s.skip(1))
    } else {
        s
    }
}

/// `s` without its trailing white space.
pub open spec fn trim_end(s: Seq<char>) -> Seq<char>
    decreases s.len(),
{
    if s.len() > 0 && is_white_space(s.last()) {
        trim_end(s.drop_last())
    } else {
        s
    }
}

/// `s` without the white space at its two ends.
pub open spec fn trimmed(s: Seq<char>) -> Seq<char> {
    trim_end(trim_start(s))
}

fn white_space(c: char) -> (r: bool)
    ensures
        r == is_white_space(c),
{
    let code: u32 = c as u32;
    (0x9 <= code && code <= 0xd) || code == 0x20 || code == 0x85 || code == 0xa0 || code == 0x1680
        || (0x2000 <= code && code <= 0x200a) || code == 0x2028 || code == 0x2029 || code == 0x202f
        || code == 0x205f || code == 0x3000
}

/// The characters of `s` without the white space at its two ends.
pub fn trim(s: &str) -> (r: Vec<char>)
    ensures
        r@ == trimmed(s@),
{
    let all = chars_of(s);
    let mut start: usize = 0;
    assert(all@.skip(0) == all@);
    while start < all.len() && white_space(all[start])
        invariant
            start <= all.len(),
            trim_start(all@) == trim_start(all@.skip(start as int)),
        decreases all.len() - start,
    {
        assert(all@.skip(start as int).skip(1) == all@.skip(start + 1));
        start = start + 1;
    }
    let mut end: usize = all.len();
    assert(trim_start(all@) == all@.skip(start as int));
    assert(all@.skip(start as int) == all@.subrange(start as int, end as int));
    while end > start && white_space(all[end - 1])
        invariant
            start <= end <= all.len(),
            trimmed(all@) == trim_end(all@.subrange(start as int, end as int)),
        decreases end,
    {
        assert(all@.subrange(start as int, end as int).drop_last() == all@.subrange(
            start as int,
            end - 1,
        ));
        end = end - 1;
    }
    let mut out: Vec<char> = Vec::new();
    let mut i: usize = start;
    while i < end
        invariant
            start <= i <= end <= all.len(),
            out@ == all@.subrange(start as int, i as int),
        decreases end - i,
    {
        out.push(all[i]);
        i = i + 1;
        assert(all@.subrange(start as int, i as int) == all@.subrange(start as int, i - 1).push(
            all@[i - 1],
        ));
    }
    out
}

/// Leading white space is trimmed, and no more.
pub proof fn lemma_trim_start(white: Seq<char>, rest: Seq<char>)
    requires
        forall|i: int| 0 <= i < white.len() ==> is_white_space(#[trigger] white[i]),
        rest.len() > 0,
        !is_white_space(rest[0]),
    ensures
        trim_start(white + rest) == rest,
    decreases white.len(),
{
    if white.len() == 0 {
        assert(white + rest =~= rest);
    } else {
        assert(is_white_space(white[0]));
        assert((white + rest).skip(1) =~= white.skip(1) + rest);
        lemma_trim_start(white.skip(1), rest);
    }
}

/// Trailing white space is trimmed, and no more.
pub proof fn lemma_trim_end(rest: Seq<char>, white: Seq<char>)
    requires
        forall|i: int| 0 <= i < white.len() ==> is_white_space(#[trigger] white[i]),
        rest.len() > 0,
        !is_white_space(rest.last()),
    ensures
        trim_end(rest + white) == rest,
    decreases white.len(),
{
    if white.len() == 0 {
        assert(rest + white =~= rest);
    } else {
        assert(is_white_space(white.last()));
        assert((rest + white).drop_last() =~= rest + white.drop_last());
        lemma_trim_end(rest, white.drop_last());
    }
}

// Laws

/// Decimal counts in tens: a number below ten is one digit, and a further digit behind a number
/// makes it ten times as large and adds that digit. Reading goes by the same rule.
pub proof fn law_decimal_is_positional(n: int, d: int, s: Seq<char>)
    requires
        0 <= d < 10,
    ensures
        decimal(d) == seq![(d + 48) as char],
        n > 0 ==> decimal(10 * n + d) == decimal(n).push((d + 48) as char),
        digits_value(seq![]) == 0,
        digits_value(s.push((d + 48) as char)) == 10 * digits_value(s) + d,
{
    assert(s.push((d + 48) as char).drop_last() =~= s);
    assert(decimal(d) =~= seq![(d + 48) as char]);
    if n > 0 {
        assert((10 * n + d) / 10 == n && (10 * n + d) % 10 == d);
        assert(decimal(10 * n + d) =~= decimal(n).push((d + 48) as char));
    }
}

/// What reads as a number is an optional plus sign and digits, at least one, that stand for it,
/// and all such texts do read as a number unless it is too large.
pub proof fn law_numbers_are_digits(s: Seq<char>, digits: Seq<char>)
    requires
        (s == digits && (digits.len() > 0 ==> digits[0] != '+')) || s == seq!['+'] + digits,
    ensures
        u32_of(s) is Some <==> {
            &&& digits.len() > 0
            &&& forall|i: int| 0 <= i < digits.len() ==> '0' <= #[trigger] digits[i] <= '9'
            &&& digits_value(digits) <= 0xffff_ffff
        },
        u32_of(s) matches Some(n) ==> n == digits_value(digits),
{
    if s == seq!['+'] + digits {
        assert(s.skip(1) =~= digits);
    }
    assert(all_digits(digits) <==> forall|i: int|
        0 <= i < digits.len() ==> '0' <= #[trigger] digits[i] <= '9') by {
        assert forall|i: int| all_digits(digits) && 0 <= i < digits.len() implies '0'
            <= #[trigger] digits[i] <= '9' by {
            assert(is_digit(digits[i]));
        }
    }
    assert(without_plus(s) == digits);
    if all_digits(digits) {
        lemma_digits_value_nonneg(digits);
    }
}

proof fn lemma_trim_start_parts(s: Seq<char>)
    ensures
        trim_start(s).len() <= s.len(),
        trim_start(s) == s.skip(s.len() - trim_start(s).len()),
        trim_start(s).len() > 0 ==> !is_white_space(trim_start(s)[0]),
        forall|i: int|
            0 <= i < s.len() - trim_start(s).len() ==> is_white_space(#[trigger] s[i]),
    decreases s.len(),
{
    if s.len() > 0 && is_white_space(s[0]) {
        let rest = s.skip(1);
        lemma_trim_start_parts(rest);
        assert(trim_start(s) =~= s.skip(s.len() - trim_start(s).len()));
        assert forall|i: int| 0 <= i < s.len() - trim_start(s).len() implies is_white_space(
            #[trigger] s[i],
        ) by {
            if i > 0 {
                assert(rest[i - 1] == s[i]);
            }
        }
    } else {
        assert(s.skip(0) =~= s);
    }
}

proof fn lemma_trim_end_parts(s: Seq<char>)
    ensures
        trim_end(s).len() <= s.len(),
        trim_end(s) == s.take(trim_end(s).len() as int),
        trim_end(s).len() > 0 ==> !is_white_space(trim_end(s).last()),
        forall|i: int| trim_end(s).len() <= i < s.len() ==> is_white_space(#[trigger] s[i]),
    decreases s.len(),
{
    if s.len() > 0 && is_white_space(s.last()) {
        let rest = s.drop_last();
        lemma_trim_end_parts(rest);
        assert(trim_end(s) =~= s.take(trim_end(s).len() as int));
        assert forall|i: int| trim_end(s).len() <= i < s.len() implies is_white_space(
            #[trigger] s[i],
        ) by {
            if i < s.len() - 1 {
                assert(rest[i] == s[i]);
            }
        }
    } else {
        assert(s.take(s.len() as int) =~= s);
    }
}

/// Trimming takes white space off both ends, all of it and nothing else: what is left is a
/// stretch of the text with only white space around it and none at its ends.
pub proof fn law_trimming_takes_only_white_space(s: Seq<char>)
    ensures
        exists|from: int, to: int|
            {
                &&& 0 <= from <= to <= s.len()
                &&& trimmed(s) == #[trigger] s.subrange(from, to)
                &&& forall|i: int|
                    0 <= i < from || to <= i < s.len() ==> is_white_space(#[trigger] s[i])
                &&& from < to ==> !is_white_space(s[from]) && !is_white_space(s[to - 1])
            },
{
    let rest = trim_start(s);
    lemma_trim_start_parts(s);
    lemma_trim_end_parts(rest);
    let from = s.len() - rest.len();
    let to = from + trimmed(s).len();
    assert(trimmed(s) =~= s.subrange(from, to));
    assert forall|i: int| 0 <= i < from || to <= i < s.len() implies is_white_space(
        #[trigger] s[i],
    ) by {
        if i >= to {
            assert(rest[i - from] == s[i]);
        }
    }
    if from < to {
        assert(s[from] == rest[0]);
        assert(s[to - 1] == trimmed(s).last());
    }
}

/// White space is what Unicode calls so: tab, line feed, vertical tab, form feed, carriage return
/// and space, next line, and the spaces and separators beyond Latin. Nothing printed is.
pub proof fn law_white_space_is_blank(c: char)
    ensures
        is_white_space(c) <==> seq![
            0x9int, 0xa, 0xb, 0xc, 0xd, 0x20, 0x85, 0xa0, 0x1680, 0x2000, 0x2001, 0x2002, 0x2003,
            0x2004, 0x2005, 0x2006, 0x2007, 0x2008, 0x2009, 0x200a, 0x2028, 0x2029, 0x202f, 0x205f,
            0x3000,
        ].contains(c as int),
{
    let all = seq![
        0x9int, 0xa, 0xb, 0xc, 0xd, 0x20, 0x85, 0xa0, 0x1680, 0x2000, 0x2001, 0x2002, 0x2003,
        0x2004, 0x2005, 0x2006, 0x2007, 0x2008, 0x2009, 0x200a, 0x2028, 0x2029, 0x202f, 0x205f,
        0x3000,
    ];
    let code = c as int;
    if 0x9 <= code <= 0xd {
        assert(all[code - 9] == code);
    }
    if 0x2000 <= code <= 0x200a {
        assert(all[9 + (code - 0x2000)] == code);
    }
    assert(all[5] == 0x20 && all[6] == 0x85 && all[7] == 0xa0 && all[8] == 0x1680 && all[20]
        == 0x2028 && all[21] == 0x2029 && all[22] == 0x202f && all[23] == 0x205f && all[24]
        == 0x3000);
}

} // verus!
