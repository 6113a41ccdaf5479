//! Text operations, spans and calendar times.

use windows_event_log::table::NameTable;
use windows_event_log::text::{
    split_trimmed, starts_with_after_trim, text_eq, to_ascii_lower, to_chars, to_decimal,
    trim_range, white_space,
};
use windows_event_log::time::{
    Span, Tick, Timestamp, MAX_CALENDAR_SECS, MAX_SPAN_NANOS, MIN_CALENDAR_SECS,
};

#[test]
fn white_space_is_that_of_unicode() {
    for c in '\0'..=char::MAX {
        assert_eq!(white_space(c), c.is_whitespace(), "{c:?}");
    }
}

#[test]
fn texts_are_compared_by_their_characters() {
    assert!(text_eq("", ""));
    assert!(text_eq("Übung", "Übung"));
    assert!(!text_eq("System", "system"));
    assert!(!text_eq("System", "Systems"));
}

#[test]
fn numbers_are_written_in_decimal() {
    for n in [0, 7, 10, 99, 100, 4624, u64::MAX] {
        assert_eq!(to_decimal(n), n.to_string());
    }
}

#[test]
fn only_ascii_letters_are_lowered() {
    for text in ["Microsoft-Windows-Kernel", "ÄÖ AZ az [`@", ""] {
        assert_eq!(to_ascii_lower(text), text.to_ascii_lowercase());
    }
}

#[test]
fn lists_are_split_and_trimmed() {
    for text in ["", ";", " a ; b;;\tc d ", "one", "\u{A0}x\u{2003};y;"] {
        let expected: Vec<String> = text
            .split(';')
            .map(|part| part.trim().to_string())
            .filter(|part| !part.is_empty())
            .collect();
        assert_eq!(split_trimmed(text, ';'), expected, "{text:?}");
    }
    let chars = to_chars("ab  cd ef");
    assert_eq!(trim_range(&chars, 2, 7), "cd");
    assert_eq!(trim_range(&chars, 2, 4), "");
}

#[test]
fn leading_white_space_is_skipped() {
    assert!(starts_with_after_trim(" \t<QueryList>", '<'));
    assert!(!starts_with_after_trim("*[x<y]", '<'));
    assert!(!starts_with_after_trim("   ", '<'));
}

#[test]
fn a_table_holds_each_name_once() {
    let mut table: NameTable<u8> = NameTable::new();
    table.insert("System".to_string(), 1);
    table.insert("Application".to_string(), 2);
    table.insert("System".to_string(), 3);
    assert_eq!(table.len(), 2);
    assert_eq!(table.get("System"), Some(&3));
    assert_eq!(table.get("system"), None);
    table.remove("System");
    table.remove("Security");
    assert_eq!(table.len(), 1);
    assert_eq!(table.entry(0), ("Application", &2));
}

/// A calendar time exists exactly where `chrono` has one.
#[test]
fn calendar_times_are_those_of_the_calendar() {
    let seconds = [
        MIN_CALENDAR_SECS - 1,
        MIN_CALENDAR_SECS,
        -61,
        -60,
        -1,
        0,
        58,
        59,
        60,
        1_483_228_799,
        MAX_CALENDAR_SECS,
        MAX_CALENDAR_SECS + 1,
        i64::MIN,
        i64::MAX,
    ];
    let nanoseconds = [
        0,
        999_999_999,
        1_000_000_000,
        1_999_999_999,
        2_000_000_000,
        u32::MAX,
    ];
    for secs in seconds {
        for nanos in nanoseconds {
            let time = Timestamp::new(secs, nanos);
            assert_eq!(
                time.is_some(),
                chrono::DateTime::from_timestamp(secs, nanos).is_some(),
                "{secs} {nanos}"
            );
            if let Some(time) = time {
                assert_eq!(time.parts(), (secs, nanos));
            }
        }
    }
}

#[test]
fn spans_saturate_and_deadlines_fall_due() {
    let long = Span::from_secs(u64::MAX);
    assert_eq!(
        long.saturating_add(Span::from_secs(1)).as_nanos(),
        MAX_SPAN_NANOS
    );
    assert_eq!(
        Span::from_secs(2)
            .saturating_add(Span::from_nanos(5))
            .as_nanos(),
        2_000_000_005
    );
    let start = Tick { nanos: 100 };
    let deadline = start.plus(Span::from_nanos(50));
    assert!(!deadline.reached(Tick { nanos: 149 }));
    assert!(deadline.reached(Tick { nanos: 150 }));
    assert_eq!(Tick { nanos: 130 }.since(start), Span::from_nanos(30));
    assert_eq!(start.since(Tick { nanos: 130 }), Span::from_nanos(0));
}
