//! What events are called: the tables of their publishers, and what is displayed.

use vstd::prelude::*;

use crate::format_cache::{Entry, NameField, Prepare, PublisherNames};
use crate::metadata::{
    ArrayWalk, DisplayView, FieldAnswers, FormatAction, MessageFormat, MetadataRow, NamePlan,
    Variant, WalkAction, WalkEvent,
};
use crate::time::Tick;

verus! {

// ---------------------------------------------------------------------------
// Tables
// ---------------------------------------------------------------------------
/// The number of a row: that of its value, or zero where that is no 32-bit number.
pub open spec fn number_of(row: MetadataRow) -> int {
    match row.value {
        Some(Variant::UInt32(n)) => n as int,
        _ => 0,
    }
}

/// What a row displays. One without a message, which the all-ones id says, displays
/// its symbolic name; any other its message alone. Nothing empty is displayed.
pub open spec fn displays(row: MetadataRow, text: Seq<char>) -> bool {
    let has_message = !(row.message_id matches Some(Variant::UInt32(id)) && id == 0xFFFF_FFFF);
    &&& text.len() > 0
    &&& has_message ==> (row.formatted matches Some(message) && message@ == text)
    &&& !has_message ==> (row.symbolic matches Some(Variant::Text(name)) && name@ == text)
}

proof fn lemma_displays(row: MetadataRow, text: Seq<char>)
    ensures
        crate::metadata::row_display(row) == Some(text) <==> displays(row, text),
{
}

/// Whether a row displays nothing.
pub open spec fn is_silent(row: MetadataRow) -> bool {
    forall|text: Seq<char>| !displays(row, text)
}

proof fn lemma_silent(row: MetadataRow)
    ensures
        is_silent(row) <==> crate::metadata::row_display(row) is None,
{
    assert forall|text: Seq<char>| #[trigger] displays(row, text) <==> crate::metadata::row_display(
        row,
    ) == Some(text) by {
        lemma_displays(row, text);
    }
    if crate::metadata::row_display(row) is Some {
        assert(displays(row, crate::metadata::row_display(row)->0));
    }
}

/// The high word of a number.
proof fn lemma_high_word(n: u32)
    ensures
        n >> 16 == n / 65536,
{
    assert(n >> 16 == n / 65536) by (bit_vector);
}

/// Every task row is in the table: a row whose number is at most 65535 and that
/// displays something names its task, and the last such row of a task is the one
/// that does.
pub proof fn every_task_row_is_in_the_table(rows: Seq<MetadataRow>, i: int, text: Seq<char>)
    requires
        0 <= i < rows.len(),
        number_of(rows[i]) <= 65535,
        displays(rows[i], text),
        forall|j: int|
            i < j < rows.len() && number_of(#[trigger] rows[j]) == number_of(rows[i]) ==> is_silent(
                rows[j],
            ),
    ensures
        crate::metadata::tasks_of(rows).contains_key(number_of(rows[i]) as u16),
        crate::metadata::tasks_of(rows)[number_of(rows[i]) as u16] == text,
    decreases rows.len(),
{
    let rest = rows.drop_last();
    let last = rows.last();
    lemma_displays(rows[i], text);
    lemma_silent(last);
    if i < rows.len() - 1 {
        assert(rest[i] == rows[i]);
        assert forall|j: int|
            i < j < rest.len() && number_of(#[trigger] rest[j]) == number_of(
                rest[i],
            ) implies is_silent(rest[j]) by {
            assert(rest[j] == rows[j]);
        }
        every_task_row_is_in_the_table(rest, i, text);
        if number_of(last) == number_of(rows[i]) {
            assert(rows[rows.len() - 1] == last);
            assert(is_silent(last));
        }
    }
}

/// Every opcode row is in the table: a row whose number has a high word of at most
/// 255 names the opcode of that word, whatever the low word.
pub proof fn every_opcode_row_is_in_the_table(rows: Seq<MetadataRow>, i: int, text: Seq<char>)
    requires
        0 <= i < rows.len(),
        number_of(rows[i]) / 65536 <= 255,
        displays(rows[i], text),
        forall|j: int|
            i < j < rows.len() && number_of(#[trigger] rows[j]) / 65536 == number_of(rows[i])
                / 65536 ==> is_silent(rows[j]),
    ensures
        crate::metadata::opcodes_of(rows).contains_key((number_of(rows[i]) / 65536) as u8),
        crate::metadata::opcodes_of(rows)[(number_of(rows[i]) / 65536) as u8] == text,
    decreases rows.len(),
{
    let rest = rows.drop_last();
    let last = rows.last();
    lemma_displays(rows[i], text);
    lemma_silent(last);
    lemma_high_word(crate::metadata::u32_value(rows[i].value));
    lemma_high_word(crate::metadata::u32_value(last.value));
    if i < rows.len() - 1 {
        assert(rest[i] == rows[i]);
        assert forall|j: int|
            i < j < rest.len() && number_of(#[trigger] rest[j]) / 65536 == number_of(rest[i])
                / 65536 implies is_silent(rest[j]) by {
            assert(rest[j] == rows[j]);
        }
        every_opcode_row_is_in_the_table(rest, i, text);
        if number_of(last) / 65536 == number_of(rows[i]) / 65536 {
            assert(rows[rows.len() - 1] == last);
            assert(is_silent(last));
        }
    }
}

/// Every level row is in the table: a row whose number is at most 255 names its
/// level.
pub proof fn every_level_row_is_in_the_table(rows: Seq<MetadataRow>, i: int, text: Seq<char>)
    requires
        0 <= i < rows.len(),
        number_of(rows[i]) <= 255,
        displays(rows[i], text),
        forall|j: int|
            i < j < rows.len() && number_of(#[trigger] rows[j]) == number_of(rows[i]) ==> is_silent(
                rows[j],
            ),
    ensures
        crate::metadata::levels_of(rows).contains_key(number_of(rows[i]) as u8),
        crate::metadata::levels_of(rows)[number_of(rows[i]) as u8] == text,
    decreases rows.len(),
{
    let rest = rows.drop_last();
    let last = rows.last();
    lemma_displays(rows[i], text);
    lemma_silent(last);
    if i < rows.len() - 1 {
        assert(rest[i] == rows[i]);
        assert forall|j: int|
            i < j < rest.len() && number_of(#[trigger] rest[j]) == number_of(
                rest[i],
            ) implies is_silent(rest[j]) by {
            assert(rest[j] == rows[j]);
        }
        every_level_row_is_in_the_table(rest, i, text);
        if number_of(last) == number_of(rows[i]) {
            assert(rows[rows.len() - 1] == last);
            assert(is_silent(last));
        }
    }
}

/// Every row that displays something gives its value a name, whatever rows come
/// before and after it: a task where its number is at most 65535, a level where it is
/// at most 255, an opcode where its high word is.
pub proof fn every_displayed_row_gives_a_name(rows: Seq<MetadataRow>, i: int, text: Seq<char>)
    requires
        0 <= i < rows.len(),
        displays(rows[i], text),
    ensures
        number_of(rows[i]) <= 65535 ==> crate::metadata::tasks_of(rows).contains_key(
            number_of(rows[i]) as u16,
        ),
        number_of(rows[i]) <= 255 ==> crate::metadata::levels_of(rows).contains_key(
            number_of(rows[i]) as u8,
        ),
        number_of(rows[i]) / 65536 <= 255 ==> crate::metadata::opcodes_of(rows).contains_key(
            (number_of(rows[i]) / 65536) as u8,
        ),
    decreases rows.len(),
{
    lemma_displays(rows[i], text);
    lemma_high_word(crate::metadata::u32_value(rows[i].value));
    lemma_high_word(crate::metadata::u32_value(rows.last().value));
    if i < rows.len() - 1 {
        assert(rows.drop_last()[i] == rows[i]);
        every_displayed_row_gives_a_name(rows.drop_last(), i, text);
    }
}

/// The keyword that a row gives a table, if it gives one: the bits of its value,
/// none where that is no 64-bit number, and what it displays.
pub open spec fn is_keyword_of(row: MetadataRow, keyword: (u64, Seq<char>)) -> bool {
    &&& displays(row, keyword.1)
    &&& keyword.0 == match row.value {
        Some(Variant::UInt64(bits)) => bits,
        _ => 0,
    }
}

/// The keywords of two tables, one after the other, are those of the one and then
/// those of the other; and one row gives one keyword, or none where it displays
/// nothing.
pub proof fn every_keyword_row_is_in_the_table(
    a: Seq<MetadataRow>,
    b: Seq<MetadataRow>,
    row: MetadataRow,
    keyword: (u64, Seq<char>),
)
    ensures
        crate::metadata::keywords_of(a + b) == crate::metadata::keywords_of(a)
            + crate::metadata::keywords_of(b),
        is_keyword_of(row, keyword) ==> crate::metadata::keywords_of(seq![row]) == seq![keyword],
        is_silent(row) ==> crate::metadata::keywords_of(seq![row]).len() == 0,
    decreases b.len(),
{
    reveal_with_fuel(crate::metadata::keywords_of, 2);
    lemma_displays(row, keyword.1);
    lemma_silent(row);
    assert(seq![row].drop_last() =~= Seq::<MetadataRow>::empty());
    if is_keyword_of(row, keyword) {
        assert(crate::metadata::keywords_of(seq![row]) =~= seq![keyword]);
    }
    if b.len() == 0 {
        assert(a + b =~= a);
    } else {
        every_keyword_row_is_in_the_table(a, b.drop_last(), row, keyword);
        assert((a + b).drop_last() =~= a + b.drop_last());
        assert((a + b).last() == b.last());
    }
    assert(crate::metadata::keywords_of(a + b) =~= crate::metadata::keywords_of(a)
        + crate::metadata::keywords_of(b));
}

/// Filling the tasks leaves no task out: for every row whose value is at most
/// 65535 and that displays something there is a name, that of the last such row.
pub proof fn filling_leaves_no_task_out(
    rows: Vec<MetadataRow>,
    names: &mut PublisherNames,
    i: int,
    text: Seq<char>,
)
    requires
        call_ensures(crate::metadata::fill_tasks, (&rows, names), ()),
        0 <= i < rows@.len(),
        number_of(rows@[i]) <= 65535,
        displays(rows@[i], text),
        forall|j: int|
            i < j < rows@.len() && number_of(#[trigger] rows@[j]) == number_of(rows@[i])
                ==> is_silent(rows@[j]),
    ensures
        final(names).tasks@.contains_key(number_of(rows@[i]) as u16),
        final(names).tasks@[number_of(rows@[i]) as u16]@ == text,
{
    every_task_row_is_in_the_table(rows@, i, text);
    let task = number_of(rows@[i]) as u16;
    assert(crate::metadata::named(final(names).tasks@).contains_key(task));
    assert(crate::metadata::named(final(names).tasks@)[task] == final(names).tasks@[task]@);
}

/// What an enumeration of a publisher leaves out: nothing. A row of its tables that
/// displays something, with no later one for the same value, names its value; and
/// the table has every keyword row in order.
pub proof fn enumerations_are_complete(
    tasks: Vec<MetadataRow>,
    opcodes: Vec<MetadataRow>,
    keywords: Vec<MetadataRow>,
    levels: Vec<MetadataRow>,
    names: PublisherNames,
    i: int,
    text: Seq<char>,
)
    requires
        call_ensures(
            crate::metadata::enumerate_publisher_names,
            (&tasks, &opcodes, &keywords, &levels),
            names,
        ),
    ensures
        0 <= i < tasks@.len() && number_of(tasks@[i]) <= 65535 && displays(tasks@[i], text) && (
        forall|j: int|
            i < j < tasks@.len() && number_of(#[trigger] tasks@[j]) == number_of(tasks@[i])
                ==> is_silent(tasks@[j])) ==> crate::format_cache::table_scalar(
            names,
            NameField::Task,
            number_of(tasks@[i]) as u64,
        ) == Some(text),
        0 <= i < opcodes@.len() && number_of(opcodes@[i]) / 65536 <= 255 && displays(
            opcodes@[i],
            text,
        ) && (forall|j: int|
            i < j < opcodes@.len() && number_of(#[trigger] opcodes@[j]) / 65536 == number_of(
                opcodes@[i],
            ) / 65536 ==> is_silent(opcodes@[j])) ==> crate::format_cache::table_scalar(
            names,
            NameField::Opcode,
            (number_of(opcodes@[i]) / 65536) as u64,
        ) == Some(text),
        0 <= i < levels@.len() && number_of(levels@[i]) <= 255 && displays(levels@[i], text) && (
        forall|j: int|
            i < j < levels@.len() && number_of(#[trigger] levels@[j]) == number_of(levels@[i])
                ==> is_silent(levels@[j])) ==> crate::format_cache::table_scalar(
            names,
            NameField::Level,
            number_of(levels@[i]) as u64,
        ) == Some(text),
        crate::metadata::keyword_texts(names.keywords@) == crate::metadata::keywords_of(keywords@),
{
    if 0 <= i < tasks@.len() && number_of(tasks@[i]) <= 65535 && displays(tasks@[i], text) && (
    forall|j: int|
        i < j < tasks@.len() && number_of(#[trigger] tasks@[j]) == number_of(tasks@[i])
            ==> is_silent(tasks@[j])) {
        every_task_row_is_in_the_table(tasks@, i, text);
        let task = number_of(tasks@[i]) as u16;
        assert(crate::metadata::named(names.tasks@).contains_key(task));
        assert(crate::metadata::named(names.tasks@)[task] == names.tasks@[task]@);
    }
    if 0 <= i < opcodes@.len() && number_of(opcodes@[i]) / 65536 <= 255 && displays(
        opcodes@[i],
        text,
    ) && (forall|j: int|
        i < j < opcodes@.len() && number_of(#[trigger] opcodes@[j]) / 65536 == number_of(
            opcodes@[i],
        ) / 65536 ==> is_silent(opcodes@[j])) {
        every_opcode_row_is_in_the_table(opcodes@, i, text);
        let opcode = (number_of(opcodes@[i]) / 65536) as u8;
        assert(crate::metadata::named(names.opcodes@).contains_key(opcode));
        assert(crate::metadata::named(names.opcodes@)[opcode] == names.opcodes@[opcode]@);
    }
    if 0 <= i < levels@.len() && number_of(levels@[i]) <= 255 && displays(levels@[i], text) && (
    forall|j: int|
        i < j < levels@.len() && number_of(#[trigger] levels@[j]) == number_of(levels@[i])
            ==> is_silent(levels@[j])) {
        every_level_row_is_in_the_table(levels@, i, text);
        let level = number_of(levels@[i]) as u8;
        assert(crate::metadata::named(names.levels@).contains_key(level));
        assert(crate::metadata::named(names.levels@)[level] == names.levels@[level]@);
    }
}

/// Nothing else is in the tables: what is named at all is named by a row for
/// exactly that value which displays the name.
pub proof fn names_have_their_row(rows: Seq<MetadataRow>, task: u16, level: u8, opcode: u8)
    ensures
        crate::metadata::tasks_of(rows).contains_key(task) ==> exists|i: int|
            0 <= i < rows.len() && number_of(#[trigger] rows[i]) == task && displays(
                rows[i],
                crate::metadata::tasks_of(rows)[task],
            ),
        crate::metadata::levels_of(rows).contains_key(level) ==> exists|i: int|
            0 <= i < rows.len() && number_of(#[trigger] rows[i]) == level && displays(
                rows[i],
                crate::metadata::levels_of(rows)[level],
            ),
        crate::metadata::opcodes_of(rows).contains_key(opcode) ==> exists|i: int|
            0 <= i < rows.len() && number_of(#[trigger] rows[i]) / 65536 == opcode && displays(
                rows[i],
                crate::metadata::opcodes_of(rows)[opcode],
            ),
{
    crate::metadata::task_names_come_from_their_own_rows(rows, task);
    crate::metadata::level_names_come_from_their_own_rows(rows, level);
    crate::metadata::opcode_names_come_from_their_own_rows(rows, opcode);
    if crate::metadata::tasks_of(rows).contains_key(task) {
        let name = crate::metadata::tasks_of(rows)[task];
        let i = choose|i: int|
            0 <= i < rows.len() && crate::metadata::row_task(#[trigger] rows[i]) == Some(task)
                && crate::metadata::row_display(rows[i]) == Some(name);
        lemma_displays(rows[i], name);
        assert(number_of(rows[i]) == task);
    }
    if crate::metadata::levels_of(rows).contains_key(level) {
        let name = crate::metadata::levels_of(rows)[level];
        let i = choose|i: int|
            0 <= i < rows.len() && crate::metadata::row_level(#[trigger] rows[i]) == Some(level)
                && crate::metadata::row_display(rows[i]) == Some(name);
        lemma_displays(rows[i], name);
        assert(number_of(rows[i]) == level);
    }
    if crate::metadata::opcodes_of(rows).contains_key(opcode) {
        let name = crate::metadata::opcodes_of(rows)[opcode];
        let i = choose|i: int|
            0 <= i < rows.len() && crate::metadata::row_opcode(#[trigger] rows[i]) == Some(opcode)
                && crate::metadata::row_display(rows[i]) == Some(name);
        lemma_displays(rows[i], name);
        lemma_high_word(crate::metadata::u32_value(rows[i].value));
        assert(number_of(rows[i]) / 65536 == opcode);
    }
}


/// A value is looked up as itself: it has the name that its field's table gives
/// exactly that value, and none where it is wider than the field.
pub proof fn values_are_looked_up_as_themselves(
    names: PublisherNames,
    value: u64,
    task: u16,
    byte: u8,
)
    ensures
        ({
            let found = crate::format_cache::table_scalar(names, NameField::Task, task as u64);
            &&& names.tasks@.contains_key(task) ==> found == Some(names.tasks@[task]@)
            &&& !names.tasks@.contains_key(task) ==> found is None
        }),
        ({
            let found = crate::format_cache::table_scalar(names, NameField::Opcode, byte as u64);
            &&& names.opcodes@.contains_key(byte) ==> found == Some(names.opcodes@[byte]@)
            &&& !names.opcodes@.contains_key(byte) ==> found is None
        }),
        ({
            let found = crate::format_cache::table_scalar(names, NameField::Level, byte as u64);
            &&& names.levels@.contains_key(byte) ==> found == Some(names.levels@[byte]@)
            &&& !names.levels@.contains_key(byte) ==> found is None
        }),
        value > 65535 ==> crate::format_cache::table_scalar(names, NameField::Task, value) is None,
        value > 255 ==> crate::format_cache::table_scalar(names, NameField::Opcode, value) is None,
        value > 255 ==> crate::format_cache::table_scalar(names, NameField::Level, value) is None,
{
}

/// A keyword is set where none of its bits is missing from the mask and it has any;
/// so more bits in the mask never take a keyword away, and a keyword that is a
/// single bit is set exactly where the mask has that bit.
pub proof fn keywords_are_set_by_all_their_bits(bits: u64, mask: u64, more: u64, k: u64)
    requires
        k < 64,
    ensures
        crate::format_cache::keyword_set(bits, mask) <==> bits != 0 && bits & !mask == 0,
        crate::format_cache::keyword_set(bits, mask) ==> crate::format_cache::keyword_set(
            bits,
            mask | more,
        ),
        crate::format_cache::keyword_set(1u64 << k, mask) <==> (mask >> k) & 1 == 1,
        !crate::format_cache::keyword_set(0, mask),
{
    assert((mask & bits == bits) <==> (bits & !mask == 0)) by (bit_vector);
    assert((mask & bits == bits) ==> ((mask | more) & bits == bits)) by (bit_vector);
    let one = 1u64 << k;
    assert(one != 0 && ((mask & one == one) <==> ((mask >> k) & 1 == 1))) by (bit_vector)
        requires
            k < 64,
            one == 1u64 << k,
    ;
}

/// The names of a mask go row by row, in the order of the table: two parts of a
/// table give the names of the one and then those of the other, and one row its
/// name where it is set.
pub proof fn keyword_names_go_row_by_row(
    a: Seq<(u64, String)>,
    b: Seq<(u64, String)>,
    row: (u64, String),
    mask: u64,
)
    ensures
        crate::format_cache::keywords_in(a + b, mask) == crate::format_cache::keywords_in(a, mask)
            + crate::format_cache::keywords_in(b, mask),
        row.0 != 0 && row.0 & !mask == 0 ==> crate::format_cache::keywords_in(seq![row], mask)
            == seq![row.1@],
        row.0 == 0 || row.0 & !mask != 0 ==> crate::format_cache::keywords_in(
            seq![row],
            mask,
        ).len() == 0,
    decreases b.len(),
{
    reveal_with_fuel(crate::format_cache::keywords_in, 2);
    keywords_are_set_by_all_their_bits(row.0, mask, 0, 0);
    assert(seq![row].drop_last() =~= Seq::<(u64, String)>::empty());
    if crate::format_cache::keyword_set(row.0, mask) {
        assert(crate::format_cache::keywords_in(seq![row], mask) =~= seq![row.1@]);
    }
    if b.len() == 0 {
        assert(a + b =~= a);
    } else {
        keyword_names_go_row_by_row(a, b.drop_last(), row, mask);
        assert((a + b).drop_last() =~= a + b.drop_last());
        assert((a + b).last() == b.last());
    }
    assert(crate::format_cache::keywords_in(a + b, mask) =~= crate::format_cache::keywords_in(
        a,
        mask,
    ) + crate::format_cache::keywords_in(b, mask));
}

/// What is known of a publisher serves until the refresh: a table is read, and one
/// that could not be opened is left alone, exactly while less time has passed than
/// that. A clock that went back passes no time.
pub proof fn knowledge_serves_until_the_refresh(
    names: PublisherNames,
    then: Tick,
    now: Tick,
    refresh: nat,
)
    ensures
        ({
            let fresh = now.nanos - then.nanos < refresh && refresh > 0;
            let table = Some(Entry::Ready { names, enumerated_at: then });
            let failed = Some(Entry::Unopenable { at: then });
            &&& fresh ==> crate::format_cache::prepared(table, now, refresh) == Prepare::Ready
            &&& fresh ==> crate::format_cache::prepared(failed, now, refresh)
                == Prepare::Unopenable
            &&& !fresh ==> crate::format_cache::prepared(table, now, refresh)
                == Prepare::NeedEnumerate
            &&& !fresh ==> crate::format_cache::prepared(failed, now, refresh)
                == Prepare::NeedEnumerate
        }),
        crate::format_cache::prepared(None, now, refresh) == Prepare::NeedEnumerate,
{
}

/// Publishers whose names differ only in the case of letters share a table, in one
/// locale; no others do.
pub proof fn tables_ignore_case(a: Seq<char>, b: Seq<char>, first: u32, second: u32)
    ensures
        crate::format_cache::table_key(a, first) == crate::format_cache::table_key(b, second)
            <==> first == second && a.len() == b.len() && forall|i: int|
            0 <= i < a.len() ==> same_letter(#[trigger] a[i], b[i]),
{
    let one = crate::text::ascii_lower(a);
    let other = crate::text::ascii_lower(b);
    assert forall|i: int| 0 <= i < a.len() && i < b.len() implies (one[i] == other[i]
        <==> same_letter(#[trigger] a[i], b[i])) by {
        crate::laws::texts::lower_case_touches_only_capitals(a, i);
        crate::laws::texts::lower_case_touches_only_capitals(b, i);
    }
    if one == other {
        assert(one.len() == a.len() && other.len() == b.len());
        assert forall|i: int| 0 <= i < a.len() implies same_letter(#[trigger] a[i], b[i]) by {
            assert(one[i] == other[i]);
        }
    }
    if a.len() == b.len() && forall|i: int|
        0 <= i < a.len() ==> same_letter(#[trigger] a[i], b[i]) {
        assert forall|i: int| 0 <= i < a.len() implies one[i] == other[i] by {
            assert(same_letter(a[i], b[i]));
        }
        assert(one =~= other);
    }
}

/// Whether two characters are the same, or the same letter of the English alphabet
/// in either case.
pub open spec fn same_letter(a: char, b: char) -> bool {
    ||| a == b
    ||| 'A' <= a <= 'Z' && b as int == a as int + 32
    ||| 'A' <= b <= 'Z' && a as int == b as int + 32
}

// ---------------------------------------------------------------------------
// Names of an event
// ---------------------------------------------------------------------------
/// The table's name comes before the event's own answer, which comes before none;
/// a level always has a name.
pub proof fn tables_come_before_answers(
    plan: NamePlan,
    fallback_level: Seq<char>,
    answers: FieldAnswers,
)
    ensures
        ({
            let names = crate::metadata::resolved(plan, fallback_level, answers);
            &&& plan.task matches Some(name) ==> names.task_name == Some(name@)
            &&& plan.opcode matches Some(name) ==> names.opcode_name == Some(name@)
            &&& plan.level matches Some(name) ==> names.level_name == Some(name@)
            &&& plan.keywords matches Some(list) ==> names.keyword_names == crate::text::texts(
                list@,
            )
            &&& plan.task is None && answers.task is Some ==> names.task_name == Some(
                answers.task->0@,
            )
            &&& plan.opcode is None && answers.opcode is Some ==> names.opcode_name == Some(
                answers.opcode->0@,
            )
            &&& plan.task is None && answers.task is None ==> names.task_name is None
            &&& plan.opcode is None && answers.opcode is None ==> names.opcode_name is None
            &&& plan.level is None ==> names.level_name == Some(fallback_level)
            &&& plan.keywords is None && answers.keywords is None ==> names.keyword_names.len()
                == 0
            &&& plan.keywords is None && answers.keywords is Some ==> names.keyword_names
                == crate::text::trimmed_parts(crate::text::split(answers.keywords->0@, ';'))
        }),
{
}

/// Each of the four fields counts as a hit or as a miss, but for a level without a
/// name in the table whose standard name is known: that counts as neither.
pub proof fn fields_are_hits_or_misses(
    plan: NamePlan,
    fallback_level: Seq<char>,
    answers: FieldAnswers,
)
    ensures
        ({
            let names = crate::metadata::resolved(plan, fallback_level, answers);
            let neither = plan.level is None && fallback_level != "Unknown"@;
            &&& names.cache_hits + names.cache_misses == if neither {
                3int
            } else {
                4
            }
            &&& names.table_misses == names.cache_misses
            &&& plan.task is Some && plan.opcode is Some && plan.keywords is Some
                && plan.level is Some <==> names.cache_hits == 4
            &&& names.cache_misses >= 1 <==> plan.task is None || plan.opcode is None
                || plan.keywords is None || (plan.level is None && !neither)
            &&& plan.task is None && plan.opcode is None && plan.keywords is None
                ==> names.cache_misses >= 3
        }),
{
}

/// One field more that the table knows is one hit more and one miss less.
pub proof fn each_field_counts_once(
    plan: NamePlan,
    other: NamePlan,
    fallback_level: Seq<char>,
    answers: FieldAnswers,
)
    requires
        plan.task is Some,
        other.task is None,
        plan.opcode == other.opcode,
        plan.keywords == other.keywords,
        plan.level == other.level,
    ensures
        crate::metadata::resolved(plan, fallback_level, answers).cache_hits
            == crate::metadata::resolved(other, fallback_level, answers).cache_hits + 1,
        crate::metadata::resolved(plan, fallback_level, answers).cache_misses + 1
            == crate::metadata::resolved(other, fallback_level, answers).cache_misses,
{
}

/// The table's keyword names are taken where there are any, and where the mask is
/// empty; else the event itself is asked.
pub proof fn keyword_names_are_asked_for_where_none_is_known(known: Option<Entry>, mask: u64)
    ensures
        ({
            let names = crate::metadata::table_keywords(known, mask);
            match known {
                Some(Entry::Ready { names: table, .. }) => {
                    let set = crate::format_cache::keywords_in(table.keywords@, mask);
                    if set.len() > 0 || mask == 0 {
                        names == Some(set)
                    } else {
                        names is None
                    }
                },
                _ => names is None,
            }
        }),
{
}

/// What an event displays that arrived as rendered text is what that text holds,
/// its message only where messages are wanted; without a publisher nothing is
/// displayed; else the publisher is asked.
pub proof fn rendered_text_is_displayed(
    info: crate::rendering_info::FieldsView,
    provider: Seq<char>,
    render_message: bool,
)
    ensures
        ({
            let shown = crate::metadata::display_known(Some(info), provider, render_message);
            &&& shown is Some
            &&& shown->0.task_name == info.task_name
            &&& shown->0.opcode_name == info.opcode_name
            &&& shown->0.keyword_names == info.keyword_names
            &&& shown->0.level_name is None
            &&& shown->0.rendered_delivery
            &&& shown->0.table_misses == 0
            &&& render_message ==> shown->0.rendered_message == info.message
            &&& !render_message ==> shown->0.rendered_message is None
        }),
        provider.len() > 0 ==> crate::metadata::display_known(None, provider, render_message)
            is None,
        provider.len() == 0 ==> crate::metadata::display_known(None, provider, render_message)
            == Some(
            DisplayView {
                task_name: None,
                opcode_name: None,
                keyword_names: Seq::empty(),
                level_name: None,
                rendered_message: None,
                rendered_delivery: false,
                table_misses: 0,
            },
        ),
{
}

/// A name that a fresh table has is a hit; one that it has not is asked of the event
/// and counts as missed; a publisher that cannot be opened is neither, and names
/// nothing.
pub proof fn lookups_hit_or_miss(
    names: PublisherNames,
    at: Tick,
    task: u16,
    spare: Option<String>,
    mask: u64,
)
    ensures
        ({
            let known = Some(Entry::Ready { names, enumerated_at: at });
            let found = crate::format_cache::looked_up(
                true,
                known,
                NameField::Task,
                task as u64,
                spare,
            );
            &&& names.tasks@.contains_key(task) ==> found == (
                Some(names.tasks@[task]@),
                true,
                false,
            )
            &&& !names.tasks@.contains_key(task) && spare is Some ==> found == (
                Some((spare->0)@),
                false,
                true,
            )
            &&& !names.tasks@.contains_key(task) && spare is None ==> found == (
                None::<Seq<char>>,
                false,
                true,
            )
        }),
        ({
            let known = Some(Entry::Ready { names, enumerated_at: at });
            let set = crate::format_cache::keywords_in(names.keywords@, mask);
            let found = crate::format_cache::keywords_looked_up(true, known, mask, spare);
            &&& set.len() > 0 || mask == 0 ==> found == (set, true, false)
            &&& set.len() == 0 && mask != 0 ==> found.1 == false && found.2 == true
            &&& set.len() == 0 && mask != 0 && spare is None ==> found.0.len() == 0
            &&& set.len() == 0 && mask != 0 && spare is Some ==> found.0
                == crate::text::trimmed_parts(crate::text::split((spare->0)@, ';'))
        }),
        crate::format_cache::looked_up(false, None, NameField::Task, task as u64, spare) == (
            None::<Seq<char>>,
            false,
            false,
        ),
        crate::format_cache::keywords_looked_up(false, None, mask, spare).0.len() == 0,
        crate::format_cache::keywords_looked_up(false, None, mask, spare).2 == false,
{
}

/// What is kept of an enumeration: the names with their time, or that the publisher
/// could not be opened, with that time.
pub proof fn enumerations_are_kept(names: PublisherNames, now: Tick)
    ensures
        crate::format_cache::enumerated(Some(names), now) == (Entry::Ready {
            names,
            enumerated_at: now,
        }),
        crate::format_cache::enumerated(None, now) == (Entry::Unopenable { at: now }),
{
}

/// A publisher whose table is missing or stale is taken first; one that cannot be
/// opened gives no names but the level's own; a fresh table is looked up at once.
pub proof fn names_are_prepared(level: Seq<char>)
    ensures
        crate::metadata::preparation(Prepare::Unopenable)
            == crate::metadata::NamePreparation::NoNames,
        crate::metadata::preparation(Prepare::Ready) == crate::metadata::NamePreparation::Ready,
        crate::metadata::preparation(Prepare::NeedEnumerate)
            == crate::metadata::NamePreparation::TakePublisher,
        crate::metadata::nameless(level).level_name == Some(level),
        crate::metadata::nameless(level).task_name is None,
        crate::metadata::nameless(level).opcode_name is None,
        crate::metadata::nameless(level).keyword_names.len() == 0,
        crate::metadata::nameless(level).table_misses == 0,
        crate::metadata::nameless(level).cache_hits == 0,
        crate::metadata::nameless(level).cache_misses == 0,
{
}

/// A publisher that is open is enumerated through its handle; one that is not, or
/// failed, is opened; and one that could not be opened gives no names.
pub proof fn publishers_are_opened_and_enumerated(
    entry: crate::shared_cache::PublisherEntry,
    taken: crate::metadata::NamePreparation,
)
    requires
        call_ensures(crate::metadata::publisher_taken, (&entry,), taken),
    ensures
        entry.handle matches Some(h) ==> h.0 != 0 ==> taken
            == crate::metadata::NamePreparation::Enumerate(h.0),
        entry.handle is None || (entry.handle->0).0 == 0 ==> taken
            == crate::metadata::NamePreparation::Open,
{
}

// ---------------------------------------------------------------------------
// Formatting
// ---------------------------------------------------------------------------
/// A text in a buffer ends before the first null, or with the buffer where there is
/// none.
pub proof fn texts_end_before_the_null(units: Seq<u16>)
    ensures
        ({
            let text = crate::metadata::up_to_null(units);
            &&& text.len() <= units.len()
            &&& text == units.take(text.len() as int)
            &&& forall|i: int| 0 <= i < text.len() ==> #[trigger] units[i] != 0
            &&& text.len() < units.len() ==> units[text.len() as int] == 0
        }),
    decreases units.len(),
{
    if units.len() > 0 && units[0] != 0 {
        let rest = units.skip(1);
        texts_end_before_the_null(rest);
        let text = crate::metadata::up_to_null(units);
        assert(text =~= units.take(text.len() as int));
        assert forall|i: int| 0 <= i < text.len() implies #[trigger] units[i] != 0 by {
            if i > 0 {
                assert(rest[i - 1] != 0);
            }
        }
        if text.len() < units.len() {
            assert(rest[text.len() - 1] == 0);
        }
    } else {
        assert(crate::metadata::up_to_null(units) =~= units.take(0));
    }
}

/// A call that succeeded, or that left inserts unresolved, leaves the text of its
/// buffer, where there is any; every other one leaves none.
pub proof fn buffers_leave_their_text(code: u32, units: Seq<u16>)
    ensures
        ({
            let text = crate::text::utf16_lossy(crate::metadata::up_to_null(units));
            let usable = code == 15029 || code == 15030 || code == 15031;
            &&& text.len() > 0 ==> crate::metadata::buffer_text(None, units) == Some(text)
            &&& text.len() == 0 ==> crate::metadata::buffer_text(None, units) is None
            &&& usable ==> crate::metadata::buffer_text(Some(code), units)
                == crate::metadata::buffer_text(None, units)
            &&& !usable ==> crate::metadata::buffer_text(Some(code), units) is None
        }),
{
}

/// Names are asked for with room for up to 4096 units, messages for up to 65536,
/// and only where there is a publisher to ask, for a name an event too.
pub proof fn formatting_starts_with_its_length(
    metadata: i64,
    event: i64,
    by_id: MessageFormat,
    field: MessageFormat,
    message: MessageFormat,
)
    requires
        call_ensures(MessageFormat::format_message_id, (), by_id),
        call_ensures(MessageFormat::format_metadata_field, (metadata, event), field),
        call_ensures(MessageFormat::format_event_message, (metadata,), message),
    ensures
        by_id.max_units == 4096,
        field.max_units == 4096,
        message.max_units == 65_536,
        by_id.action == FormatAction::Probe,
        field.action == FormatAction::Probe <==> metadata != 0 && event != 0,
        message.action == FormatAction::Probe <==> metadata != 0,
        by_id.text is None && field.text is None && message.text is None,
{
}

/// A message is fetched with exactly the room that it needs, unless it is empty or
/// too long.
pub proof fn messages_are_fetched_whole(
    format: &mut MessageFormat,
    used: u32,
    action: FormatAction,
)
    requires
        call_ensures(MessageFormat::probed, (format, used), action),
    ensures
        0 < used <= old(format).max_units ==> action == FormatAction::Fill(used),
        used == 0 || used > old(format).max_units ==> action == FormatAction::Done,
        final(format).action == action,
        final(format).text == old(format).text,
{
}

/// A row has a message to format unless its id is all ones; an id that is missing
/// counts as zero.
pub proof fn messages_have_ids(message_id: Option<Variant>, id: Option<u32>)
    requires
        call_ensures(crate::metadata::message_to_format, (&message_id,), id),
    ensures
        message_id == Some(Variant::UInt32(0xFFFF_FFFF)) <==> id is None,
        message_id matches Some(Variant::UInt32(n)) ==> n != 0xFFFF_FFFF ==> id == Some(n),
        !(message_id matches Some(Variant::UInt32(_))) ==> id == Some(0u32),
{
}

/// Room is made for as many values as fit into the bytes that are asked for, at
/// least one.
pub proof fn values_fit_their_bytes(used: u32, size: u32, count: Option<u32>)
    requires
        size > 0,
        call_ensures(crate::metadata::sized_variant, (used, size), count),
    ensures
        used == 0 <==> count is None,
        count matches Some(n) ==> n >= 1 && (n > 1 ==> n * size <= used) && used < (n + 1) * size,
{
    if used >= size {
        let q = used as int / size as int;
        assert(q >= 1 && q * size <= used < (q + 1) * size) by (nonlinear_arith)
            requires
                size > 0,
                used >= size,
                q == used as int / size as int,
        ;
    } else {
        assert(used < 2 * size);
    }
}

/// A walk reads as many rows as the table says that it has: after the answer the
/// first row is read where there is one, after each row the next one while there is
/// one, and the table is closed after the last.
pub proof fn walks_go_to_the_last_row(walk: ArrayWalk, array: i64, n: u32, index: u32)
    ensures
        walk.action == WalkAction::Property && array != 0 ==> crate::metadata::walk_after(
            walk,
            WalkEvent::Property(Some(Variant::Handle(array))),
        ).action == WalkAction::Size(array),
        walk.action == WalkAction::Size(array) ==> ({
            let next = crate::metadata::walk_after(walk, WalkEvent::Size(Some(n)));
            &&& next.len == n
            &&& n > 0 ==> next.action == WalkAction::Visit { array, index: 0 }
            &&& n == 0 ==> next.action == WalkAction::Close(array)
        }),
        walk.action == WalkAction::Size(array) ==> crate::metadata::walk_after(
            walk,
            WalkEvent::Size(None),
        ).action == WalkAction::Close(array),
        walk.action == (WalkAction::Visit { array, index }) ==> ({
            let next = crate::metadata::walk_after(walk, WalkEvent::Visited);
            &&& next.len == walk.len
            &&& index + 1 < walk.len ==> next.action == WalkAction::Visit {
                array,
                index: (index + 1) as u32,
            }
            &&& index + 1 >= walk.len ==> next.action == WalkAction::Close(array)
        }),
        walk.action == WalkAction::Close(array) ==> crate::metadata::walk_after(
            walk,
            WalkEvent::Closed,
        ).action == WalkAction::Done,
{
}

} // verus!
