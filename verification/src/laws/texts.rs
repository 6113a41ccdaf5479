//! What the operations on texts do.

use vstd::prelude::*;

verus! {

/// The number that a numeral stands for.
pub open spec fn numeral_value(digits: Seq<char>) -> int
    decreases digits.len(),
{
    if digits.len() == 0 {
        0
    } else {
        10 * numeral_value(digits.drop_last()) + (digits.last() as int - '0' as int)
    }
}

/// A number is written in digits, without a needless zero in front, and reads back
/// as itself.
pub proof fn numerals_read_back(n: nat)
    ensures
        numeral_value(crate::text::decimal(n)) == n,
        crate::text::decimal(n).len() > 0,
        crate::text::decimal(n).len() > 1 ==> crate::text::decimal(n)[0] != '0',
        n < 10 ==> crate::text::decimal(n).len() == 1,
        n > 0 ==> crate::text::decimal(n)[0] != '0',
        forall|i: int|
            0 <= i < crate::text::decimal(n).len() ==> '0' <= #[trigger] crate::text::decimal(n)[i]
                <= '9',
    decreases n,
{
    reveal_with_fuel(numeral_value, 2);
    if n >= 10 {
        numerals_read_back(n / 10);
        let front = crate::text::decimal(n / 10);
        assert(crate::text::decimal(n).drop_last() =~= front);
        assert(crate::text::decimal(n)[0] == front[0]);
    } else {
        assert(crate::text::decimal(n).drop_last() =~= Seq::<char>::empty());
    }
}

/// Different numbers are written differently.
pub proof fn numerals_differ(a: nat, b: nat)
    requires
        crate::text::decimal(a) == crate::text::decimal(b),
    ensures
        a == b,
{
    numerals_read_back(a);
    numerals_read_back(b);
}

/// White space: six characters of ASCII, and nineteen others.
pub proof fn white_space_is(c: char)
    ensures
        (c as u32) < 128 ==> (crate::text::is_white_space(c) <==> c == '\t' || c == '\n' || c
            == '\r' || c == ' ' || c == '\u{B}' || c == '\u{C}'),
        (c as u32) >= 128 ==> (crate::text::is_white_space(c) <==> c == '\u{85}' || c == '\u{A0}'
            || c == '\u{1680}' || ('\u{2000}' <= c && c <= '\u{200A}') || c == '\u{2028}' || c
            == '\u{2029}' || c == '\u{202F}' || c == '\u{205F}' || c == '\u{3000}'),
{
}

pub open spec fn is_blank(text: Seq<char>) -> bool {
    forall|i: int| 0 <= i < text.len() ==> crate::text::is_white_space(#[trigger] text[i])
}

/// Trimming takes white space off both ends and nothing else: the text is what is
/// left, with blanks before and after, and what is left neither begins nor ends
/// with a blank.
pub proof fn trimming_takes_only_blanks(text: Seq<char>) -> (ends: (Seq<char>, Seq<char>))
    ensures
        is_blank(ends.0),
        is_blank(ends.1),
        text == ends.0 + crate::text::trimmed(text) + ends.1,
        crate::text::trimmed(text).len() > 0 ==> !crate::text::is_white_space(
            crate::text::trimmed(text)[0],
        ) && !crate::text::is_white_space(crate::text::trimmed(text).last()),
        crate::text::trimmed(text).len() == 0 <==> is_blank(text),
{
    let front = lemma_trimmed_start(text);
    let body = crate::text::trimmed_start(text);
    let back = lemma_trimmed_end(body);
    let left = crate::text::trimmed(text);
    assert(text =~= front + left + back);
    if left.len() > 0 {
        assert(left[0] == body[0]);
        assert(text[front.len() as int] == left[0]);
    } else {
        assert forall|i: int| 0 <= i < text.len() implies crate::text::is_white_space(
            #[trigger] text[i],
        ) by {
            if i < front.len() {
                assert(text[i] == front[i]);
            } else {
                assert(text[i] == back[i - front.len()]);
            }
        }
    }
    (front, back)
}

proof fn lemma_trimmed_start(text: Seq<char>) -> (front: Seq<char>)
    ensures
        is_blank(front),
        text == front + crate::text::trimmed_start(text),
        crate::text::trimmed_start(text).len() > 0 ==> !crate::text::is_white_space(
            crate::text::trimmed_start(text)[0],
        ),
    decreases text.len(),
{
    if text.len() > 0 && crate::text::is_white_space(text[0]) {
        let rest = lemma_trimmed_start(text.skip(1));
        let front = seq![text[0]] + rest;
        assert forall|i: int| 0 <= i < front.len() implies crate::text::is_white_space(
            #[trigger] front[i],
        ) by {
            if i > 0 {
                assert(front[i] == rest[i - 1]);
            }
        }
        assert(text =~= seq![text[0]] + text.skip(1));
        assert(text =~= front + crate::text::trimmed_start(text));
        front
    } else {
        assert(text =~= Seq::<char>::empty() + text);
        Seq::empty()
    }
}

proof fn lemma_trimmed_end(text: Seq<char>) -> (back: Seq<char>)
    ensures
        is_blank(back),
        text == crate::text::trimmed_end(text) + back,
        crate::text::trimmed_end(text).len() > 0 ==> !crate::text::is_white_space(
            crate::text::trimmed_end(text).last(),
        ),
    decreases text.len(),
{
    if text.len() > 0 && crate::text::is_white_space(text.last()) {
        let rest = lemma_trimmed_end(text.drop_last());
        let back = rest.push(text.last());
        assert(text =~= text.drop_last().push(text.last()));
        assert(text =~= crate::text::trimmed_end(text) + back);
        back
    } else {
        assert(text =~= text + Seq::<char>::empty());
        Seq::empty()
    }
}

/// A text opens with a character exactly where blanks alone stand before it, for a
/// character that is no blank itself.
pub proof fn opening_is_past_the_blanks(text: Seq<char>, c: char)
    requires
        !crate::text::is_white_space(c),
    ensures
        crate::text::opens_with(text, c) <==> exists|i: int|
            0 <= i < text.len() && text[i] == c && is_blank(#[trigger] text.take(i)),
{
    let front = lemma_trimmed_start(text);
    let body = crate::text::trimmed_start(text);
    let n = front.len() as int;
    if crate::text::opens_with(text, c) {
        assert(text[n] == body[0]);
        assert(text.take(n) =~= front);
        assert(is_blank(text.take(n)));
    }
    if exists|i: int| 0 <= i < text.len() && text[i] == c && is_blank(#[trigger] text.take(i)) {
        let i = choose|i: int|
            0 <= i < text.len() && text[i] == c && is_blank(#[trigger] text.take(i));
        if i < n {
            assert(text[i] == front[i]);
        } else if i > n {
            assert(text[n] == body[0]);
            assert(text.take(i)[n] == text[n]);
        } else {
            assert(text[n] == body[0]);
        }
    }
}

/// The parts of a text with the separator between them again.
pub open spec fn joined(parts: Seq<Seq<char>>, separator: char) -> Seq<char>
    decreases parts.len(),
{
    if parts.len() == 0 {
        Seq::empty()
    } else if parts.len() == 1 {
        parts[0]
    } else {
        joined(parts.drop_last(), separator).push(separator) + parts.last()
    }
}

/// A text is split at every separator and nowhere else: no part holds one, and the
/// parts joined again are the text.
pub proof fn splitting_is_undone_by_joining(text: Seq<char>, separator: char)
    ensures
        crate::text::split(text, separator).len() > 0,
        joined(crate::text::split(text, separator), separator) == text,
        forall|i: int|
            0 <= i < crate::text::split(text, separator).len() ==> !(#[trigger] crate::text::split(
                text,
                separator,
            )[i]).contains(separator),
    decreases text.len(),
{
    reveal_with_fuel(joined, 2);
    let parts = crate::text::split(text, separator);
    if text.len() == 0 {
        assert(joined(parts, separator) =~= text);
    } else {
        let rest = text.drop_last();
        let before = crate::text::split(rest, separator);
        splitting_is_undone_by_joining(rest, separator);
        assert(text =~= rest.push(text.last()));
        if text.last() == separator {
            assert(parts.drop_last() =~= before);
            assert(joined(parts, separator) =~= text);
        } else {
            assert(parts.drop_last() =~= before.drop_last());
            assert(parts.last() =~= before.last().push(text.last()));
            assert(joined(parts, separator) =~= joined(before, separator).push(text.last()));
            assert forall|i: int| 0 <= i < parts.len() implies !(#[trigger] parts[i]).contains(
                separator,
            ) by {
                if i < before.len() - 1 {
                    assert(parts[i] == before[i]);
                } else {
                    let last = before[before.len() - 1];
                    assert(!last.contains(separator));
                    if parts[i].contains(separator) {
                        let j = choose|j: int| 0 <= j < parts[i].len() && parts[i][j] == separator;
                        assert(last[j] == separator);
                    }
                }
            }
        }
    }
}

/// The parts that are not blank are kept, each trimmed, in their order: parts of
/// two lists are those of the one and then those of the other.
pub proof fn parts_are_kept_in_order(a: Seq<Seq<char>>, b: Seq<Seq<char>>, one: Seq<char>)
    ensures
        crate::text::trimmed_parts(a + b) == crate::text::trimmed_parts(a)
            + crate::text::trimmed_parts(b),
        crate::text::trimmed_parts(seq![one]) == if is_blank(one) {
            Seq::<Seq<char>>::empty()
        } else {
            seq![crate::text::trimmed(one)]
        },
    decreases b.len(),
{
    let ends = trimming_takes_only_blanks(one);
    reveal_with_fuel(crate::text::trimmed_parts, 2);
    assert(seq![one].drop_last() =~= Seq::<Seq<char>>::empty());
    assert(crate::text::trimmed_parts(seq![one]) =~= if is_blank(one) {
        Seq::<Seq<char>>::empty()
    } else {
        seq![crate::text::trimmed(one)]
    });
    if b.len() == 0 {
        assert(a + b =~= a);
        assert(crate::text::trimmed_parts(a) + crate::text::trimmed_parts(b)
            =~= crate::text::trimmed_parts(a));
    } else {
        parts_are_kept_in_order(a, b.drop_last(), one);
        assert((a + b).drop_last() =~= a + b.drop_last());
        assert(crate::text::trimmed_parts(a + b) =~= crate::text::trimmed_parts(a)
            + crate::text::trimmed_parts(b));
    }
}

/// Lower case touches the letters A to Z alone, and moves each to its own lower
/// letter; so a text that has none is its own lower case.
pub proof fn lower_case_touches_only_capitals(text: Seq<char>, i: int)
    requires
        0 <= i < text.len(),
    ensures
        crate::text::ascii_lower(text).len() == text.len(),
        'A' <= text[i] <= 'Z' ==> crate::text::ascii_lower(text)[i] as int - 'a' as int == text[i]
            as int - 'A' as int,
        !('A' <= text[i] <= 'Z') ==> crate::text::ascii_lower(text)[i] == text[i],
        !('A' <= crate::text::ascii_lower(text)[i] <= 'Z'),
{
}

/// The UTF-16 units that a character is written with: one up to U+FFFF, two above.
pub open spec fn units_of(c: char) -> Seq<u16> {
    if c as int <= 0xFFFF {
        seq![(c as int) as u16]
    } else {
        seq![
            (0xD800 + (c as int - 0x1_0000) / 0x400) as u16,
            (0xDC00 + (c as int - 0x1_0000) % 0x400) as u16,
        ]
    }
}

/// The UTF-16 units that a text is written with.
pub open spec fn encoded(text: Seq<char>) -> Seq<u16>
    decreases text.len(),
{
    if text.len() == 0 {
        Seq::empty()
    } else {
        units_of(text[0]) + encoded(text.skip(1))
    }
}

proof fn lemma_units(c: char)
    ensures
        c as int <= 0xFFFF ==> {
            &&& units_of(c).len() == 1
            &&& units_of(c)[0] as int == c as int
            &&& units_of(c)[0] as char == c
            &&& !(0xD800 <= units_of(c)[0] <= 0xDFFF)
        },
        c as int > 0xFFFF ==> {
            &&& units_of(c).len() == 2
            &&& 0xD800 <= units_of(c)[0] <= 0xDBFF
            &&& 0xDC00 <= units_of(c)[1] <= 0xDFFF
            &&& (0x1_0000 + (units_of(c)[0] - 0xD800) * 0x400 + (units_of(c)[1] - 0xDC00)) as char
                == c
        },
{
    let n = c as int;
    assert(0 <= n <= 0x10_FFFF);
    assert(!(0xD800 <= n <= 0xDFFF));
    if n > 0xFFFF {
        let above = n - 0x1_0000;
        assert(0 <= above / 0x400 <= 0x3FF);
        assert(units_of(c)[0] as int == 0xD800 + above / 0x400);
        assert(units_of(c)[1] as int == 0xDC00 + above % 0x400);
    }
}

/// What a text is written with in UTF-16 is read back as the text.
pub proof fn encoded_texts_are_read_back(text: Seq<char>)
    ensures
        crate::text::utf16_lossy(encoded(text)) == text,
    decreases text.len(),
{
    if text.len() > 0 {
        let units = encoded(text);
        let rest = encoded(text.skip(1));
        encoded_texts_are_read_back(text.skip(1));
        lemma_units(text[0]);
        assert(units == units_of(text[0]) + rest);
        assert(units[0] == units_of(text[0])[0]);
        if text[0] as int <= 0xFFFF {
            assert(units.skip(1) =~= rest);
        } else {
            assert(units.skip(2) =~= rest);
            assert(units[1] == units_of(text[0])[1]);
        }
        assert(crate::text::utf16_lossy(units) =~= seq![text[0]] + text.skip(1));
        assert(seq![text[0]] + text.skip(1) =~= text);
    } else {
        assert(text =~= Seq::empty());
    }
}

/// A unit of a pair whose other half is missing is read as U+FFFD, and what
/// follows is read as if it stood alone.
pub proof fn lone_halves_are_replaced(unit: u16, text: Seq<char>)
    requires
        0xD800 <= unit <= 0xDFFF,
        unit <= 0xDBFF ==> text.len() == 0 || text[0] as int <= 0xFFFF,
    ensures
        crate::text::utf16_lossy(seq![unit] + encoded(text)) == seq!['\u{FFFD}'] + text,
{
    let units = seq![unit] + encoded(text);
    assert(units.skip(1) =~= encoded(text));
    encoded_texts_are_read_back(text);
    if text.len() > 0 {
        lemma_units(text[0]);
        assert(units[1] == units_of(text[0])[0]);
    }
}

} // verus!
