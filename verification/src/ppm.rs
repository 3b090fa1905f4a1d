//! Binary PPM (P6), the uncompressed format that the screen is captured in.

use crate::screenshot::Screenshot;
use crate::text::{decimal, is_digit, law_decimal_reads_back, parse_u32, u32_of};
use vstd::prelude::*;

verus! {

/// ASCII white space: space, tab, line feed, form feed, carriage return.
pub open spec fn is_space(b: u8) -> bool {
    b == 32 || b == 9 || b == 10 || b == 12 || b == 13
}

/// The first position from `pos` on that is not white space, or the end.
pub open spec fn skip_spaces(b: Seq<u8>, pos: int) -> int
    decreases b.len() - pos,
{
    if 0 <= pos < b.len() && is_space(b[pos]) {
        skip_spaces(b, pos + 1)
    } else {
        pos
    }
}

/// The first line feed from `pos` on, or the end.
pub open spec fn line_end(b: Seq<u8>, pos: int) -> int
    decreases b.len() - pos,
{
    if 0 <= pos < b.len() && b[pos] != 10 {
        line_end(b, pos + 1)
    } else {
        pos
    }
}

/// The first white space from `pos` on, or the end.
pub open spec fn token_end(b: Seq<u8>, pos: int) -> int
    decreases b.len() - pos,
{
    if 0 <= pos < b.len() && !is_space(b[pos]) {
        token_end(b, pos + 1)
    } else {
        pos
    }
}

/// Where the next header field starts: white space is skipped, and so are comments, which run
/// from a number sign to the end of the line.
pub open spec fn field_start(b: Seq<u8>, pos: int) -> int
    decreases b.len() - pos,
{
    proof {
        lemma_skips(b, pos);
        lemma_skips(b, skip_spaces(b, pos) + 1);
    }
    let p = skip_spaces(b, pos);
    if 0 <= p < b.len() && b[p] == 35 {
        field_start(b, line_end(b, p + 1))
    } else {
        p
    }
}

/// The skips never move back, and stop at the end.
pub proof fn lemma_skips(b: Seq<u8>, pos: int)
    ensures
        pos <= skip_spaces(b, pos),
        pos <= line_end(b, pos),
        pos <= token_end(b, pos),
        0 <= pos <= b.len() ==> skip_spaces(b, pos) <= b.len() && line_end(b, pos) <= b.len()
            && token_end(b, pos) <= b.len(),
    decreases b.len() - pos,
{
    if 0 <= pos < b.len() {
        lemma_skips(b, pos + 1);
    }
}

proof fn lemma_field_start(b: Seq<u8>, pos: int)
    requires
        0 <= pos <= b.len(),
    ensures
        pos <= field_start(b, pos) <= b.len(),
    decreases b.len() - pos,
{
    lemma_skips(b, pos);
    let p = skip_spaces(b, pos);
    if p < b.len() && b[p] == 35 {
        lemma_skips(b, p + 1);
        lemma_field_start(b, line_end(b, p + 1));
    }
}

/// The bytes read as characters.
pub open spec fn as_chars(b: Seq<u8>) -> Seq<char> {
    b.map_values(|x: u8| x as char)
}

/// The header field after `pos`: its number, and where it ends.
pub open spec fn header_field(b: Seq<u8>, pos: int) -> Option<(u32, int)> {
    let start = field_start(b, pos);
    let end = token_end(b, start);
    match u32_of(as_chars(b.subrange(start, end))) {
        Some(n) => Some((n, end)),
        None => None,
    }
}

/// What a header says: width, height, and where the pixels start. Neither side is 0, channels
/// have 8 bits, and exactly one byte separates the header from the pixels.
pub open spec fn header(b: Seq<u8>) -> Option<(u32, u32, int)> {
    if b.len() < 2 || b[0] != 80 || b[1] != 54 {
        None
    } else {
        match header_field(b, 2) {
            None => None,
            Some((w, p)) => match header_field(b, p) {
                None => None,
                Some((h, q)) => match header_field(b, q) {
                    None => None,
                    Some((maxval, r)) => if maxval != 255 || w == 0 || h == 0 {
                        None
                    } else {
                        Some((w, h, r + 1))
                    },
                },
            },
        }
    }
}

/// RGB bytes with an opaque alpha channel added to every pixel.
pub open spec fn with_alpha(rgb: Seq<u8>) -> Seq<u8> {
    Seq::new(
        (rgb.len() / 3 * 4) as nat,
        |i: int|
            if i % 4 == 3 {
                255
            } else {
                rgb[i / 4 * 3 + i % 4]
            },
    )
}

fn space(b: u8) -> (r: bool)
    ensures
        r == is_space(b),
{
    b == 32 || b == 9 || b == 10 || b == 12 || b == 13
}

/// Reads one header field, as its number and where it ends.
fn read_field(bytes: &[u8], from: usize) -> (r: Option<(u32, usize)>)
    requires
        from <= bytes@.len(),
    ensures
        r is Some <==> header_field(bytes@, from as int) is Some,
        r matches Some(f) ==> header_field(bytes@, from as int) == Some((f.0, f.1 as int)) && f.1
            <= bytes@.len(),
{
    let mut pos: usize = from;
    loop
        invariant
            from <= pos <= bytes@.len(),
            field_start(bytes@, from as int) == field_start(bytes@, pos as int),
        ensures
            pos <= bytes@.len(),
            field_start(bytes@, from as int) == pos,
        decreases bytes@.len() - pos,
    {
        let ghost round = pos as int;
        while pos < bytes.len() && space(bytes[pos])
            invariant
                round <= pos <= bytes@.len(),
                skip_spaces(bytes@, round) == skip_spaces(bytes@, pos as int),
            decreases bytes@.len() - pos,
        {
            pos = pos + 1;
        }
        assert(pos == skip_spaces(bytes@, round));
        if pos < bytes.len() && bytes[pos] == 35 {
            pos = pos + 1;
            let ghost comment = pos as int;
            while pos < bytes.len() && bytes[pos] != 10
                invariant
                    comment <= pos <= bytes@.len(),
                    line_end(bytes@, comment) == line_end(bytes@, pos as int),
                decreases bytes@.len() - pos,
            {
                pos = pos + 1;
            }
            assert(field_start(bytes@, round) == field_start(bytes@, pos as int));
            continue ;
        }
        break ;
    }
    let start: usize = pos;
    let mut token: Vec<char> = Vec::new();
    while pos < bytes.len() && !space(bytes[pos])
        invariant
            start <= pos <= bytes@.len(),
            token_end(bytes@, start as int) == token_end(bytes@, pos as int),
            token@ == as_chars(bytes@.subrange(start as int, pos as int)),
        decreases bytes@.len() - pos,
    {
        token.push(bytes[pos] as char);
        pos = pos + 1;
        assert(bytes@.subrange(start as int, pos as int) == bytes@.subrange(
            start as int,
            pos - 1,
        ).push(bytes@[pos - 1]));
    }
    match parse_u32(&token) {
        Some(n) => Some((n, pos)),
        None => None,
    }
}

/// Decodes a binary PPM. `None` stands for a buffer that does not start with a usable header,
/// or is too short for the pixels that the header announces; bytes after the pixels are not
/// looked at.
pub fn decode_ppm(bytes: &[u8]) -> (r: Option<Screenshot>)
    ensures
        match header(bytes@) {
            None => r is None,
            Some((w, h, at)) => {
                let size = 3 * (w * h);
                &&& r is Some <==> at + size <= bytes@.len()
                &&& r matches Some(img) ==> {
                    &&& img.inv()
                    &&& img.width == w
                    &&& img.height == h
                    &&& img.pixels@ == with_alpha(bytes@.subrange(at, at + size))
                }
            },
        },
{
    if bytes.len() < 2 || bytes[0] != 80 || bytes[1] != 54 {
        return None;
    }
    let (w, p): (u32, usize) = match read_field(bytes, 2) {
        Some(f) => f,
        None => return None,
    };
    let (h, q): (u32, usize) = match read_field(bytes, p) {
        Some(f) => f,
        None => return None,
    };
    let (maxval, end): (u32, usize) = match read_field(bytes, q) {
        Some(f) => f,
        None => return None,
    };
    if maxval != 255 || w == 0 || h == 0 {
        return None;
    }
    let ghost size = 3 * (w * h);
    assert(0 < w * h <= u32::MAX * u32::MAX) by (nonlinear_arith)
        requires
            0 < w <= u32::MAX,
            0 < h <= u32::MAX,
    ;
    let count: u128 = w as u128 * h as u128;
    if end == bytes.len() || ((bytes.len() - end - 1) as u128) < 3 * count {
        return None;
    }
    let at: usize = end + 1;
    let count: usize = count as usize;
    let ghost rgb = bytes@.subrange(at as int, at + size);
    let mut rgba: Vec<u8> = Vec::new();
    let mut i: usize = 0;
    while i < count
        invariant
            i <= count,
            count == w * h,
            size == 3 * (w * h),
            at + size <= bytes@.len(),
            rgb == bytes@.subrange(at as int, at + size),
            rgba@.len() == 4 * i,
            forall|k: int| 0 <= k < 4 * i ==> #[trigger] rgba@[k] == with_alpha(rgb)[k],
        decreases count - i,
    {
        assert(at + 3 * i + 3 <= bytes.len() <= usize::MAX);
        let from: usize = at + 3 * i;
        rgba.push(bytes[from]);
        rgba.push(bytes[from + 1]);
        rgba.push(bytes[from + 2]);
        rgba.push(255);
        i = i + 1;
    }
    assert(rgba@ == with_alpha(rgb));
    Some(Screenshot { width: w, height: h, pixels: rgba })
}

// Laws

/// Any mix of white space and whole comments.
pub open spec fn is_separator(s: Seq<u8>) -> bool
    decreases s.len(),
{
    if s.len() == 0 {
        true
    } else if is_space(s[0]) {
        is_separator(s.skip(1))
    } else if s[0] == 35 {
        let end = line_end(s, 1);
        1 <= end < s.len() && is_separator(s.skip(end))
    } else {
        false
    }
}

/// `n` in decimal, as bytes.
pub open spec fn decimal_bytes(n: int) -> Seq<u8> {
    decimal(n).map_values(|c: char| c as u8)
}

/// A PPM file: the two sides and the depth of an image, each after a separator, then one byte
/// and what follows the header.
pub open spec fn ppm_file(
    w: int,
    h: int,
    before_width: Seq<u8>,
    before_height: Seq<u8>,
    before_depth: Seq<u8>,
    last: u8,
    rest: Seq<u8>,
) -> Seq<u8> {
    seq![80u8, 54u8] + before_width + decimal_bytes(w) + before_height + decimal_bytes(h)
        + before_depth + decimal_bytes(255) + seq![last] + rest
}

proof fn lemma_line_end_in_part(b: Seq<u8>, pos: int, s: Seq<u8>, k: int)
    requires
        0 <= pos,
        0 <= k,
        pos + s.len() <= b.len(),
        b.subrange(pos, pos + s.len()) == s,
        line_end(s, k) < s.len(),
    ensures
        line_end(b, pos + k) == pos + line_end(s, k),
    decreases s.len() - k,
{
    if k < s.len() {
        assert(b[pos + k] == s[k]);
        if s[k] != 10 {
            lemma_line_end_in_part(b, pos, s, k + 1);
        }
    }
}

proof fn lemma_separator_skipped(b: Seq<u8>, pos: int, s: Seq<u8>)
    requires
        0 <= pos,
        pos + s.len() < b.len(),
        b.subrange(pos, pos + s.len()) == s,
        is_separator(s),
        !is_space(b[pos + s.len()]),
        b[pos + s.len()] != 35,
    ensures
        field_start(b, pos) == pos + s.len(),
    decreases s.len(),
{
    if s.len() > 0 {
        assert(b[pos] == s[0]);
        if is_space(s[0]) {
            assert(b.subrange(pos + 1, pos + 1 + s.skip(1).len()) =~= s.skip(1));
            lemma_separator_skipped(b, pos + 1, s.skip(1));
        } else {
            let end = line_end(s, 1);
            lemma_line_end_in_part(b, pos, s, 1);
            assert(b.subrange(pos + end, pos + end + s.skip(end).len()) =~= s.skip(end));
            lemma_separator_skipped(b, pos + end, s.skip(end));
        }
    }
}

proof fn lemma_token_end(b: Seq<u8>, pos: int, n: int)
    requires
        0 <= pos,
        0 <= n,
        pos + n < b.len(),
        forall|i: int| pos <= i < pos + n ==> !is_space(#[trigger] b[i]),
        is_space(b[pos + n]),
    ensures
        token_end(b, pos) == pos + n,
    decreases n,
{
    if n > 0 {
        assert(!is_space(b[pos]));
        lemma_token_end(b, pos + 1, n - 1);
    }
}

proof fn lemma_decimal_bytes(n: u32)
    ensures
        decimal_bytes(n as int).len() > 0,
        as_chars(decimal_bytes(n as int)) == decimal(n as int),
        forall|i: int|
            0 <= i < decimal_bytes(n as int).len() ==> 48 <= #[trigger] decimal_bytes(
                n as int,
            )[i] <= 57,
{
    law_decimal_reads_back(n);
    let d = decimal(n as int);
    assert forall|i: int| 0 <= i < d.len() implies 48 <= #[trigger] decimal_bytes(n as int)[i]
        <= 57 && (decimal_bytes(n as int)[i] as char) == d[i] by {
        assert(is_digit(d[i]));
    }
    assert(as_chars(decimal_bytes(n as int)) =~= d);
}

/// A number after a separator is read as itself.
proof fn lemma_field_read(b: Seq<u8>, pos: int, s: Seq<u8>, n: u32)
    requires
        0 <= pos,
        is_separator(s),
        pos + s.len() + decimal_bytes(n as int).len() < b.len(),
        b.subrange(pos, pos + s.len()) == s,
        b.subrange(pos + s.len(), pos + s.len() + decimal_bytes(n as int).len())
            == decimal_bytes(n as int),
        is_space(b[pos + s.len() + decimal_bytes(n as int).len()]),
    ensures
        header_field(b, pos) == Some((n, (pos + s.len() + decimal_bytes(n as int).len()) as int)),
{
    let d = decimal_bytes(n as int);
    let start = pos + s.len();
    lemma_decimal_bytes(n);
    law_decimal_reads_back(n);
    assert forall|i: int| start <= i < start + d.len() implies !is_space(#[trigger] b[i])
        && b[i] != 35 by {
        assert(b[i] == d[i - start]);
    }
    assert(!is_space(b[start as int]));
    lemma_separator_skipped(b, pos, s);
    lemma_token_end(b, start as int, d.len() as int);
}

/// However a header is laid out and commented, the decoder finds the width, the height and the
/// first byte after it.
proof fn lemma_header_read(
    w: u32,
    h: u32,
    before_width: Seq<u8>,
    before_height: Seq<u8>,
    before_depth: Seq<u8>,
    last: u8,
    rest: Seq<u8>,
)
    requires
        w > 0,
        h > 0,
        is_separator(before_width),
        is_separator(before_height),
        is_separator(before_depth),
        before_height.len() > 0 && is_space(before_height[0]),
        before_depth.len() > 0 && is_space(before_depth[0]),
        is_space(last),
    ensures
        ({
            let file = ppm_file(
                w as int,
                h as int,
                before_width,
                before_height,
                before_depth,
                last,
                rest,
            );
            header(file) == Some((w, h, file.len() - rest.len()))
        }),
{
    let file = ppm_file(
        w as int,
        h as int,
        before_width,
        before_height,
        before_depth,
        last,
        rest,
    );
    let (dw, dh, dd) = (decimal_bytes(w as int), decimal_bytes(h as int), decimal_bytes(255));
    let p1: int = 2 + before_width.len() as int;
    let p2: int = p1 + dw.len();
    let p3: int = p2 + before_height.len();
    let p4: int = p3 + dh.len();
    let p5: int = p4 + before_depth.len();
    let p6: int = p5 + dd.len();
    assert(file.len() == p6 + 1 + rest.len());
    assert(file.subrange(2, p1) =~= before_width);
    assert(file.subrange(p1, p2) =~= dw);
    assert(file.subrange(p2, p3) =~= before_height);
    assert(file.subrange(p3, p4) =~= dh);
    assert(file.subrange(p4, p5) =~= before_depth);
    assert(file.subrange(p5, p6) =~= dd);
    assert(file[p2] == before_height[0]);
    assert(file[p4] == before_depth[0]);
    assert(file[p6] == last);
    lemma_field_read(file, 2, before_width, w);
    lemma_field_read(file, p2, before_height, h);
    lemma_field_read(file, p4, before_depth, 255);
}

/// A PPM file is read back as what was written to it: its width, its height and its pixels,
/// however its header is laid out and commented and whatever follows the pixels.
pub proof fn law_ppm_file_reads_back(
    w: u32,
    h: u32,
    before_width: Seq<u8>,
    before_height: Seq<u8>,
    before_depth: Seq<u8>,
    last: u8,
    rgb: Seq<u8>,
    extra: Seq<u8>,
)
    requires
        w > 0,
        h > 0,
        is_separator(before_width),
        is_separator(before_height),
        is_separator(before_depth),
        before_height.len() > 0 && is_space(before_height[0]),
        before_depth.len() > 0 && is_space(before_depth[0]),
        is_space(last),
        rgb.len() == 3 * (w * h),
    ensures
        ({
            let file = ppm_file(
                w as int,
                h as int,
                before_width,
                before_height,
                before_depth,
                last,
                rgb + extra,
            );
            &&& header(file) matches Some((fw, fh, at))
            &&& fw == w
            &&& fh == h
            &&& at + rgb.len() <= file.len()
            &&& file.subrange(at, (at + rgb.len()) as int) == rgb
        }),
{
    lemma_header_read(
        w,
        h,
        before_width,
        before_height,
        before_depth,
        last,
        rgb + extra,
    );
    let file = ppm_file(
        w as int,
        h as int,
        before_width,
        before_height,
        before_depth,
        last,
        rgb + extra,
    );
    let at = file.len() - (rgb + extra).len();
    assert(file.subrange(at, (at + rgb.len()) as int) =~= rgb);
}

/// Every decoded pixel has the three bytes of its place in the file as its color, and is
/// opaque.
pub proof fn law_decoded_pixels_are_opaque(img: Screenshot, rgb: Seq<u8>, x: int, y: int)
    requires
        rgb.len() == 3 * (img.width * img.height),
        img.pixels@ == with_alpha(rgb),
        img.covers(x, y),
    ensures
        ({
            let at = 3 * (y * img.width + x);
            img.rgba(x, y) == (rgb[at], rgb[at + 1], rgb[at + 2], 255u8)
        }),
{
    img.lemma_offset(x, y);
}

/// Whether a byte separates header fields: a tab, a line feed, a form feed, a carriage return or a
/// space.
pub open spec fn separates(b: u8) -> bool {
    seq![9u8, 10, 12, 13, 32].contains(b)
}

/// Every byte from `from` up to but not at `to` separates fields, or belongs to a comment: it is
/// or follows a number sign, with no line feed between.
pub open spec fn only_blank(b: Seq<u8>, from: int, to: int) -> bool {
    forall|i: int| from <= i < to ==> #[trigger] blank_at(b, from, i)
}

/// The byte at `i` separates fields, or belongs to a comment that starts at or after `from`.
pub open spec fn blank_at(b: Seq<u8>, from: int, i: int) -> bool {
    separates(b[i]) || exists|sign: int| #[trigger] comment_reaches(b, from, sign, i)
}

/// A comment that starts at `sign`, at or after `from`, has not ended before `i`.
pub open spec fn comment_reaches(b: Seq<u8>, from: int, sign: int, i: int) -> bool {
    from <= sign <= i && b[sign] == 35 && forall|k: int| sign <= k < i ==> #[trigger] b[k] != 10
}

/// No byte from `from` up to but not at `to` separates fields, and one does at `to`, or the buffer
/// ends there.
pub open spec fn one_token(b: Seq<u8>, from: int, to: int) -> bool {
    &&& forall|i: int| from <= i < to ==> !separates(#[trigger] b[i])
    &&& to == b.len() || separates(b[to])
}

proof fn lemma_spaces(x: u8)
    ensures
        is_space(x) <==> separates(x),
{
    let all = seq![9u8, 10, 12, 13, 32];
    assert(all[0] == 9 && all[1] == 10 && all[2] == 12 && all[3] == 13 && all[4] == 32);
}

proof fn lemma_skip_ends(b: Seq<u8>, pos: int)
    requires
        0 <= pos <= b.len(),
    ensures
        pos <= skip_spaces(b, pos) <= b.len(),
        forall|i: int| pos <= i < skip_spaces(b, pos) ==> separates(#[trigger] b[i]),
        skip_spaces(b, pos) < b.len() ==> !separates(b[skip_spaces(b, pos)]),
        pos <= line_end(b, pos) <= b.len(),
        forall|i: int| pos <= i < line_end(b, pos) ==> #[trigger] b[i] != 10,
        line_end(b, pos) < b.len() ==> b[line_end(b, pos)] == 10,
        pos <= token_end(b, pos) <= b.len(),
        one_token(b, pos, token_end(b, pos)),
    decreases b.len() - pos,
{
    if pos < b.len() {
        lemma_spaces(b[pos]);
        lemma_skip_ends(b, pos + 1);
    }
}

proof fn lemma_field_start_ends(b: Seq<u8>, pos: int)
    requires
        0 <= pos <= b.len(),
    ensures
        pos <= field_start(b, pos) <= b.len(),
        only_blank(b, pos, field_start(b, pos)),
        field_start(b, pos) < b.len() ==> !separates(b[field_start(b, pos)])
            && b[field_start(b, pos)] != 35,
    decreases b.len() - pos,
{
    lemma_skip_ends(b, pos);
    let p = skip_spaces(b, pos);
    if p < b.len() && b[p] == 35 {
        lemma_skip_ends(b, p + 1);
        let end = line_end(b, p + 1);
        lemma_field_start_ends(b, end);
        let s = field_start(b, pos);
        assert(s == field_start(b, end));
        assert forall|i: int| pos <= i < s implies #[trigger] blank_at(b, pos, i) by {
            if p <= i < end {
                assert(comment_reaches(b, pos, p, i));
            } else if end <= i && !separates(b[i]) {
                assert(blank_at(b, end, i));
                let sign = choose|sign: int| #[trigger] comment_reaches(b, end, sign, i);
                assert(comment_reaches(b, pos, sign, i));
            }
        }
    }
}

/// A header that is accepted is a real one. It starts with P6 and holds three numbers: the width,
/// the height, neither of them 0, and 255. Each is one token with only separators and comments in
/// front of it, and the pixels start one byte behind the last.
pub proof fn law_only_real_headers_are_accepted(b: Seq<u8>)
    ensures
        header(b) matches Some((w, h, at)) ==> {
            &&& b[0] == 80 && b[1] == 54
            &&& w > 0 && h > 0
            &&& exists|s1: int, e1: int, s2: int, e2: int, s3: int|
                {
                    &&& #[trigger] is_field(b, 2, s1, e1, w)
                    &&& #[trigger] is_field(b, e1, s2, e2, h)
                    &&& #[trigger] is_field(b, e2, s3, at - 1, 255)
                }
        },
{
    if let Some((w, h, at)) = header(b) {
        let (n1, p) = header_field(b, 2)->0;
        let (n2, q) = header_field(b, p)->0;
        lemma_header_field(b, 2);
        lemma_header_field(b, p);
        lemma_header_field(b, q);
        assert(is_field(b, 2, field_start(b, 2), p, w));
        assert(is_field(b, p, field_start(b, p), q, h));
        assert(is_field(b, q, field_start(b, q), at - 1, 255));
    }
}

/// The header field behind `pos` is the number `n`, written from `start` up to but not at `end`.
pub open spec fn is_field(b: Seq<u8>, pos: int, start: int, end: int, n: u32) -> bool {
    &&& pos <= start < end <= b.len()
    &&& only_blank(b, pos, start)
    &&& one_token(b, start, end)
    &&& b[start] != 35
    &&& u32_of(Seq::new((end - start) as nat, |i: int| b[start + i] as char)) == Some(n)
}

proof fn lemma_header_field(b: Seq<u8>, pos: int)
    requires
        0 <= pos <= b.len(),
    ensures
        header_field(b, pos) matches Some((n, end)) ==> is_field(
            b,
            pos,
            field_start(b, pos),
            end,
            n,
        ),
{
    lemma_field_start_ends(b, pos);
    let start = field_start(b, pos);
    lemma_skip_ends(b, start);
    let end = token_end(b, start);
    let text = as_chars(b.subrange(start, end));
    assert(text =~= Seq::new((end - start) as nat, |i: int| b[start + i] as char));
    if start == end {
        assert(text.len() == 0);
    }
}

/// A file of another kind is refused: one that does not start with P6, or whose depth is not 255,
/// or that has no column or no row.
pub proof fn law_other_files_are_refused(
    w: u32,
    h: u32,
    depth: u32,
    before_width: Seq<u8>,
    before_height: Seq<u8>,
    before_depth: Seq<u8>,
    last: u8,
    rest: Seq<u8>,
)
    requires
        is_separator(before_width),
        is_separator(before_height),
        is_separator(before_depth),
        before_height.len() > 0 && is_space(before_height[0]),
        before_depth.len() > 0 && is_space(before_depth[0]),
        is_space(last),
        w == 0 || h == 0 || depth != 255,
    ensures
        header(
            seq![80u8, 54u8] + before_width + decimal_bytes(w as int) + before_height
                + decimal_bytes(h as int) + before_depth + decimal_bytes(depth as int) + seq![last]
                + rest,
        ) is None,
        forall|b: Seq<u8>|
            (b.len() < 2 || b[0] != 80 || b[1] != 54) ==> #[trigger] header(b) is None,
{
    let (dw, dh, dd) = (
        decimal_bytes(w as int),
        decimal_bytes(h as int),
        decimal_bytes(depth as int),
    );
    let file = seq![80u8, 54u8] + before_width + dw + before_height + dh + before_depth + dd + seq![
        last,
    ] + rest;
    law_decimal_reads_back(w);
    law_decimal_reads_back(h);
    law_decimal_reads_back(depth);
    let p1 = 2 + before_width.len();
    let p2 = p1 + dw.len();
    let p3 = p2 + before_height.len();
    let p4 = p3 + dh.len();
    let p5 = p4 + before_depth.len();
    let p6 = p5 + dd.len();
    assert(file.subrange(2, p1 as int) =~= before_width);
    assert(file.subrange(p1 as int, p2 as int) =~= dw);
    assert(file.subrange(p2 as int, p3 as int) =~= before_height);
    assert(file.subrange(p3 as int, p4 as int) =~= dh);
    assert(file.subrange(p4 as int, p5 as int) =~= before_depth);
    assert(file.subrange(p5 as int, p6 as int) =~= dd);
    assert(file[p2 as int] == before_height[0]);
    assert(file[p4 as int] == before_depth[0]);
    assert(file[p6 as int] == last);
    lemma_field_read(file, 2, before_width, w);
    lemma_field_read(file, p2 as int, before_height, h);
    lemma_field_read(file, p4 as int, before_depth, depth);
}

/// A line feed follows the byte at `i`.
pub open spec fn line_ends_after(s: Seq<u8>, i: int) -> bool {
    exists|j: int| i < j < s.len() && #[trigger] s[j] == 10
}

/// Fields are separated by the white space of ASCII, and by comments: any run of it in which every
/// comment is ended by a line feed, and by nothing else, is a separator.
pub proof fn law_blanks_and_comments_separate(s: Seq<u8>, x: u8)
    requires
        only_blank(s, 0, s.len() as int),
        forall|i: int| 0 <= i < s.len() && s[i] == 35 ==> #[trigger] line_ends_after(s, i),
    ensures
        is_space(x) <==> x == 9 || x == 10 || x == 12 || x == 13 || x == 32,
        is_separator(s),
    decreases s.len(),
{
    if s.len() > 0 {
        lemma_spaces(s[0]);
        assert(blank_at(s, 0, 0));
        if s[0] == 35 {
            lemma_skip_ends(s, 1);
            assert(line_ends_after(s, 0));
            let end = line_end(s, 1);
            assert(end < s.len() && s[end] == 10);
            lemma_blank_rest(s, end);
            law_blanks_and_comments_separate(s.skip(end), x);
        } else {
            assert(separates(s[0])) by {
                if !separates(s[0]) {
                    let sign = choose|sign: int| #[trigger] comment_reaches(s, 0, sign, 0);
                }
            }
            lemma_blank_rest(s, 1);
            law_blanks_and_comments_separate(s.skip(1), x);
        }
    }
}

proof fn lemma_blank_rest(s: Seq<u8>, end: int)
    requires
        only_blank(s, 0, s.len() as int),
        forall|i: int| 0 <= i < s.len() && s[i] == 35 ==> #[trigger] line_ends_after(s, i),
        1 <= end <= s.len(),
        (end < s.len() && s[end] == 10) || (end == 1 && s[0] != 35),
    ensures
        only_blank(s.skip(end), 0, s.len() - end),
        forall|i: int|
            0 <= i < s.skip(end).len() && s.skip(end)[i] == 35 ==> #[trigger] line_ends_after(
                s.skip(end),
                i,
            ),
{
    let rest = s.skip(end);
    assert forall|i: int| 0 <= i < rest.len() implies #[trigger] blank_at(rest, 0, i) by {
        assert(blank_at(s, 0, end + i));
        assert(rest[i] == s[end + i]);
        if !separates(rest[i]) {
            let sign = choose|sign: int| #[trigger] comment_reaches(s, 0, sign, end + i);
            if sign < end {
                if end < s.len() && s[end] == 10 {
                    let all = seq![9u8, 10, 12, 13, 32];
                    assert(all[1] == 10);
                    assert(separates(10));
                    if i > 0 {
                        assert(s[end] != 10);
                    }
                }
            } else {
                assert forall|k: int| sign - end <= k < i implies #[trigger] rest[k] != 10 by {
                    assert(s[end + k] != 10);
                }
                assert(comment_reaches(rest, 0, sign - end, i));
            }
        }
    }
    assert forall|i: int| 0 <= i < rest.len() && rest[i] == 35 implies #[trigger] line_ends_after(
        rest,
        i,
    ) by {
        assert(s[end + i] == 35);
        assert(line_ends_after(s, end + i));
        let j = choose|j: int| end + i < j < s.len() && #[trigger] s[j] == 10;
        assert(rest[j - end] == 10);
    }
}

} // verus!
