//! Text operations, over the sequence of a text's characters.

use vstd::prelude::*;

verus! {

/// `String::push` appends one character.
pub assume_specification[ String::push ](text: &mut String, c: char)
    ensures
        final(text)@ == old(text)@.push(c),
;

/// The characters of a text.
pub fn to_chars(text: &str) -> (chars: Vec<char>)
    ensures
        chars@ == text@,
{
    let mut chars: Vec<char> = Vec::new();
    for c in it: text.chars()
        invariant
            chars@ == it.seq().take(it.index() as int),
            it.seq() == text@,
    {
        chars.push(c);
    }
    chars
}

/// Whether two texts are the same.
pub fn text_eq(a: &str, b: &str) -> (same: bool)
    ensures
        same == (a@ == b@),
{
    let left = a.as_bytes();
    let right = b.as_bytes();
    proof {
        vstd::utf8::encode_utf8_decode_utf8(a@);
        vstd::utf8::encode_utf8_decode_utf8(b@);
    }
    if left.len() != right.len() {
        return false;
    }
    let mut i: usize = 0;
    while i < left.len()
        invariant
            i <= left@.len(),
            left@.len() == right@.len(),
            left@ == vstd::utf8::encode_utf8(a@),
            right@ == vstd::utf8::encode_utf8(b@),
            forall|j: int| 0 <= j < i ==> left@[j] == right@[j],
        decreases left.len() - i,
    {
        if left[i] != right[i] {
            return false;
        }
        i += 1;
    }
    assert(left@ =~= right@);
    true
}

/// The decimal digits of a number.
pub open spec fn decimal(n: nat) -> Seq<char>
    decreases n,
{
    if n < 10 {
        seq![('0' as u32 + n) as u32 as char]
    } else {
        decimal(n / 10).push(('0' as u32 + n % 10) as u32 as char)
    }
}

fn digit(d: u64) -> (c: char)
    requires
        d < 10,
    ensures
        c == ('0' as u32 + d) as u32 as char,
{
    match d {
        0 => '0',
        1 => '1',
        2 => '2',
        3 => '3',
        4 => '4',
        5 => '5',
        6 => '6',
        7 => '7',
        8 => '8',
        _ => '9',
    }
}

/// A number written in decimal.
pub fn to_decimal(n: u64) -> (text: String)
    ensures
        text@ == decimal(n as nat),
    decreases n,
{
    if n < 10 {
        let mut text = String::new();
        text.push(digit(n));
        text
    } else {
        let mut text = to_decimal(n / 10);
        text.push(digit(n % 10));
        text
    }
}

/// Whether a character has the Unicode property White_Space.
pub open spec fn is_white_space(c: char) -> bool {
    let n = c as u32;
    0x9 <= n <= 0xD || n == 0x20 || n == 0x85 || n == 0xA0 || n == 0x1680 || 0x2000 <= n <= 0x200A
        || n == 0x2028 || n == 0x2029 || n == 0x202F || n == 0x205F || n == 0x3000
}

/// Whether a character is white space.
pub fn white_space(c: char) -> (white: bool)
    ensures
        white == is_white_space(c),
{
    let n: u32 = c as u32;
    (0x9 <= n && n <= 0xD) || n == 0x20 || n == 0x85 || n == 0xA0 || n == 0x1680 || (0x2000 <= n
        && n <= 0x200A) || n == 0x2028 || n == 0x2029 || n == 0x202F || n == 0x205F || n == 0x3000
}

/// A text without its leading white space.
pub open spec fn trimmed_start(text: Seq<char>) -> Seq<char>
    decreases text.len(),
{
    if text.len() > 0 && is_white_space(text[0]) {
        trimmed_start(text.skip(1))
    } else {
        text
    }
}

/// A text without its trailing white space.
pub open spec fn trimmed_end(text: Seq<char>) -> Seq<char>
    decreases text.len(),
{
    if text.len() > 0 && is_white_space(text.last()) {
        trimmed_end(text.drop_last())
    } else {
        text
    }
}

/// A text without white space at either end.
pub open spec fn trimmed(text: Seq<char>) -> Seq<char> {
    trimmed_end(trimmed_start(text))
}

/// Whether a text starts with a character, leading white space aside.
pub open spec fn opens_with(text: Seq<char>, c: char) -> bool {
    trimmed_start(text).len() > 0 && trimmed_start(text)[0] == c
}

/// The number of leading white-space characters in `chars[from..]`, added to
/// `from`.
fn skip_white(chars: &Vec<char>, from: usize) -> (start: usize)
    requires
        from <= chars@.len(),
    ensures
        from <= start <= chars@.len(),
        chars@.skip(start as int) == trimmed_start(chars@.skip(from as int)),
{
    let mut i: usize = from;
    while i < chars.len() && white_space(chars[i])
        invariant
            from <= i <= chars@.len(),
            trimmed_start(chars@.skip(i as int)) == trimmed_start(chars@.skip(from as int)),
        decreases chars.len() - i,
    {
        assert(chars@.skip(i as int).skip(1) =~= chars@.skip(i + 1));
        i += 1;
    }
    i
}

/// Whether a text starts with a character, leading white space aside.
pub fn starts_with_after_trim(text: &str, c: char) -> (starts: bool)
    ensures
        starts == opens_with(text@, c),
{
    let chars = to_chars(text);
    let start: usize = skip_white(&chars, 0);
    assert(chars@.skip(0) =~= chars@);
    start < chars.len() && chars[start] == c
}

/// A part of a text's characters, without white space at either end.
pub fn trim_range(chars: &Vec<char>, from: usize, to: usize) -> (text: String)
    requires
        from <= to <= chars@.len(),
    ensures
        text@ == trimmed(chars@.subrange(from as int, to as int)),
{
    let mut part: Vec<char> = Vec::new();
    let mut i: usize = from;
    while i < to
        invariant
            from <= i <= to <= chars@.len(),
            part@ == chars@.subrange(from as int, i as int),
        decreases to - i,
    {
        part.push(chars[i]);
        assert(part@ =~= chars@.subrange(from as int, i + 1));
        i += 1;
    }
    let start: usize = skip_white(&part, 0);
    assert(part@.skip(0) =~= part@);
    let ghost body = trimmed_start(part@);
    let mut end: usize = part.len();
    assert(body =~= part@.subrange(start as int, end as int));
    while end > start && white_space(part[end - 1])
        invariant
            start <= end <= part@.len(),
            trimmed_end(part@.subrange(start as int, end as int)) == trimmed_end(body),
        decreases end,
    {
        let ghost here = part@.subrange(start as int, end as int);
        assert(here.last() == part@[end - 1]);
        assert(here.drop_last() =~= part@.subrange(start as int, end - 1));
        end -= 1;
    }
    proof {
        let here = part@.subrange(start as int, end as int);
        if end > start {
            assert(here.last() == part@[end - 1]);
        }
    }
    let mut text = String::new();
    let mut j: usize = start;
    while j < end
        invariant
            start <= j <= end <= part@.len(),
            text@ == part@.subrange(start as int, j as int),
        decreases end - j,
    {
        text.push(part[j]);
        assert(text@ =~= part@.subrange(start as int, j + 1));
        j += 1;
    }
    text
}

/// A character with an ASCII upper-case letter made lower case.
pub open spec fn lower_char(c: char) -> char {
    if 'A' <= c && c <= 'Z' {
        (c as u32 + 32) as u32 as char
    } else {
        c
    }
}

/// A text with its ASCII upper-case letters made lower case.
pub open spec fn ascii_lower(text: Seq<char>) -> Seq<char> {
    text.map_values(|c: char| lower_char(c))
}

fn to_lower_char(c: char) -> (lower: char)
    ensures
        lower == lower_char(c),
{
    if 'A' <= c && c <= 'Z' {
        let lower: u8 = c as u8 + 32;
        lower as char
    } else {
        c
    }
}

/// A text with its ASCII upper-case letters made lower case.
pub fn to_ascii_lower(text: &str) -> (lower: String)
    ensures
        lower@ == ascii_lower(text@),
{
    let mut lower = String::new();
    for c in it: text.chars()
        invariant
            lower@ == ascii_lower(it.seq().take(it.index() as int)),
            it.seq() == text@,
    {
        lower.push(to_lower_char(c));
        assert(lower@ =~= ascii_lower(it.seq().take(it.index() + 1)));
    }
    assert(text@.take(text@.len() as int) =~= text@);
    lower
}

/// The parts of a text between the separators.
pub open spec fn split(text: Seq<char>, separator: char) -> Seq<Seq<char>>
    decreases text.len(),
{
    if text.len() == 0 {
        seq![Seq::empty()]
    } else {
        let before = split(text.drop_last(), separator);
        if text.last() == separator {
            before.push(Seq::empty())
        } else {
            before.drop_last().push(before.last().push(text.last()))
        }
    }
}

/// The parts of a list, each without white space at either end, that are not
/// empty.
pub open spec fn trimmed_parts(parts: Seq<Seq<char>>) -> Seq<Seq<char>>
    decreases parts.len(),
{
    if parts.len() == 0 {
        Seq::empty()
    } else {
        let before = trimmed_parts(parts.drop_last());
        let last = trimmed(parts.last());
        if last.len() > 0 {
            before.push(last)
        } else {
            before
        }
    }
}

/// The characters of each text in a list.
pub open spec fn texts(list: Seq<String>) -> Seq<Seq<char>> {
    list.map_values(|t: String| t@)
}

/// Split a text at its separators and keep the parts that are not blank, without
/// white space at either end.
pub fn split_trimmed(text: &str, separator: char) -> (parts: Vec<String>)
    ensures
        texts(parts@) == trimmed_parts(split(text@, separator)),
{
    let chars = to_chars(text);
    let mut parts: Vec<String> = Vec::new();
    let mut from: usize = 0;
    let mut i: usize = 0;
    let ghost mut done: Seq<Seq<char>> = Seq::empty();
    assert(texts(parts@) =~= trimmed_parts(done));
    assert(chars@.subrange(0, 0) =~= Seq::<char>::empty());
    assert(split(chars@.take(0), separator) =~= done.push(chars@.subrange(0, 0)));
    while i < chars.len()
        invariant
            from <= i <= chars@.len(),
            split(chars@.take(i as int), separator) == done.push(
                chars@.subrange(from as int, i as int),
            ),
            texts(parts@) == trimmed_parts(done),
        decreases chars.len() - i,
    {
        let ghost here = chars@.take(i + 1);
        let ghost part = chars@.subrange(from as int, i as int);
        assert(here.drop_last() =~= chars@.take(i as int));
        assert(here.last() == chars@[i as int]);
        if chars[i] == separator {
            let last = trim_range(&chars, from, i);
            proof {
                let more = done.push(part);
                assert(more.drop_last() =~= done);
                assert(split(here, separator) =~= more.push(Seq::empty()));
                assert(chars@.subrange(i + 1, i + 1) =~= Seq::<char>::empty());
                done = more;
            }
            let ghost before = parts@;
            if !last.as_str().is_empty() {
                parts.push(last);
            }
            assert(texts(parts@) =~= trimmed_parts(done)) by {
                if trimmed(part).len() > 0 {
                    assert(texts(parts@) =~= texts(before).push(trimmed(part)));
                }
            }
            from = i + 1;
        } else {
            proof {
                let all = done.push(part);
                assert(all.drop_last() =~= done);
                assert(chars@.subrange(from as int, i + 1) =~= part.push(chars@[i as int]));
                assert(split(here, separator) =~= done.push(part.push(chars@[i as int])));
            }
        }
        i += 1;
    }
    assert(chars@.take(i as int) =~= text@);
    let last = trim_range(&chars, from, i);
    let ghost part = chars@.subrange(from as int, i as int);
    proof {
        assert(done.push(part).drop_last() =~= done);
    }
    let ghost before = parts@;
    if !last.as_str().is_empty() {
        parts.push(last);
    }
    assert(texts(parts@) =~= trimmed_parts(done.push(part))) by {
        if trimmed(part).len() > 0 {
            assert(texts(parts@) =~= texts(before).push(trimmed(part)));
        }
    }
    parts
}

/// Whether a UTF-16 unit is the first half of a pair.
pub open spec fn is_high_surrogate(unit: u16) -> bool {
    0xD800 <= unit <= 0xDBFF
}

/// Whether a UTF-16 unit is the second half of a pair.
pub open spec fn is_low_surrogate(unit: u16) -> bool {
    0xDC00 <= unit <= 0xDFFF
}

/// The text that UTF-16 units encode, with U+FFFD for each half without its
/// other half.
pub open spec fn utf16_lossy(units: Seq<u16>) -> Seq<char>
    decreases units.len(),
{
    if units.len() == 0 {
        Seq::empty()
    } else if is_high_surrogate(units[0]) && units.len() > 1 && is_low_surrogate(units[1]) {
        seq![
            (0x1_0000 + (units[0] - 0xD800) * 0x400 + (units[1] - 0xDC00)) as char,
        ] + utf16_lossy(units.skip(2))
    } else if is_high_surrogate(units[0]) || is_low_surrogate(units[0]) {
        seq!['\u{FFFD}'] + utf16_lossy(units.skip(1))
    } else {
        seq![units[0] as char] + utf16_lossy(units.skip(1))
    }
}

/// `String::from_utf16_lossy` decodes UTF-16, with U+FFFD for what is no
/// character.
#[verifier::external_body]
pub(crate) fn decode_utf16_lossy(units: &Vec<u16>) -> (text: String)
    ensures
        text@ == utf16_lossy(units@),
{
    String::from_utf16_lossy(units)
}

} // verus!
