//! The name tables: lookups, misses and refreshes.

use std::sync::atomic::{AtomicUsize, Ordering};

use windows_event_log::format_cache::{
    choose_table_display, FormatCache, Lookup, NameField, Prepare, PublisherNames,
    SYSTEM_DEFAULT_LOCALE,
};
use windows_event_log::time::{Span, Tick};

const HOUR: u64 = 3600;

/// A clock reading some seconds after the start of a test.
fn at(secs: u64) -> Tick {
    Tick {
        nanos: (10_000 + secs) * 1_000_000_000,
    }
}
const SECURITY: &str = "Microsoft-Windows-Security-Auditing";

fn security_names() -> PublisherNames {
    let mut names = PublisherNames::default();
    names.tasks.insert(13312, "Process Creation".into());
    names.tasks.insert(13313, "Process Termination".into());
    names
        .tasks
        .insert(13317, "Token Right Adjusted Events".into());
    names.tasks.insert(12800, "File System".into());
    names.opcodes.insert(0, "Info".into());
    names.levels.insert(0, "Information".into());
    names.levels.insert(2, "Error".into());
    names.levels.insert(16, "Custom-16".into());
    names
        .keywords
        .push((0x0020_0000_0000_0000, "Audit Success".into()));
    names
        .keywords
        .push((0x8000_0000_0000_0000, "Classic".into()));
    names
}

fn lookup_task(
    cache: &mut FormatCache,
    publisher: &str,
    value: u16,
    now: Tick,
    refresh: Span,
    enumerate: impl FnOnce() -> Option<PublisherNames>,
    fallback: impl FnOnce() -> Option<String>,
) -> Lookup {
    cache.lookup(
        publisher,
        SYSTEM_DEFAULT_LOCALE,
        NameField::Task,
        u64::from(value),
        now,
        refresh,
        enumerate,
        fallback,
    )
}

/// A table row is the name of its own value: interleaved lookups of the Security
/// tasks never swap their names.
#[test]
fn a_value_never_resolves_to_another_values_name() {
    let mut cache = FormatCache::new();
    let t0 = at(0);
    let values = [13312u16, 13313, 13317, 12800];
    let enumerations = AtomicUsize::new(0);
    let fallbacks = AtomicUsize::new(0);

    for pass in 0..250 {
        let value = values[pass % values.len()];
        let got = lookup_task(
            &mut cache,
            SECURITY,
            value,
            t0,
            Span::from_secs(HOUR),
            || {
                enumerations.fetch_add(1, Ordering::SeqCst);
                Some(security_names())
            },
            || {
                fallbacks.fetch_add(1, Ordering::SeqCst);
                panic!("table hit must not fall back")
            },
        );
        let expected = security_names().tasks.get(&value).cloned();
        assert_eq!(
            got.name, expected,
            "task {value} resolved to another task's name on pass {pass}"
        );
        assert!(got.hit);
        assert!(!got.table_miss);
    }
    assert_eq!(enumerations.load(Ordering::SeqCst), 1);
    assert_eq!(fallbacks.load(Ordering::SeqCst), 0);
    assert_eq!(cache.len(), 1);
}

/// A publisher that cannot be opened emits nothing, caches the negative,
/// and does not retry until refresh. There is no fallback: `EvtFormatMessage` needs the same handle.
#[test]
fn unopenable_publisher_is_cached_until_refresh() {
    let mut cache = FormatCache::new();
    let t0 = at(0);
    let enumerations = AtomicUsize::new(0);
    let fallbacks = AtomicUsize::new(0);

    let first = lookup_task(
        &mut cache,
        "Missing-Provider",
        1,
        t0,
        Span::from_secs(HOUR),
        || {
            enumerations.fetch_add(1, Ordering::SeqCst);
            None
        },
        || {
            fallbacks.fetch_add(1, Ordering::SeqCst);
            Some("must-not-run".into())
        },
    );
    assert!(first.name.is_none());
    assert!(!first.hit);
    assert!(!first.table_miss);

    let second = lookup_task(
        &mut cache,
        "Missing-Provider",
        1,
        at(1),
        Span::from_secs(HOUR),
        || panic!("negative must not re-enumerate before refresh"),
        || panic!("there is nothing to fall back to"),
    );
    assert!(second.name.is_none());
    assert_eq!(enumerations.load(Ordering::SeqCst), 1);
    assert_eq!(fallbacks.load(Ordering::SeqCst), 0);

    let after = lookup_task(
        &mut cache,
        "Missing-Provider",
        13312,
        at(HOUR),
        Span::from_secs(HOUR),
        || {
            enumerations.fetch_add(1, Ordering::SeqCst);
            Some(security_names())
        },
        || panic!("re-enumerated table must serve the value"),
    );
    assert_eq!(after.name.as_deref(), Some("Process Creation"));
    assert!(after.hit);
    assert_eq!(enumerations.load(Ordering::SeqCst), 2);
}

/// A value that the table lacks uses the fallback answer and NEVER writes it into the table.
/// A later lookup of the same value still misses the table.
#[test]
fn fallback_answer_is_not_inserted_into_the_table() {
    let mut cache = FormatCache::new();
    let t0 = at(0);
    let fallbacks = AtomicUsize::new(0);
    let names = security_names();

    let first = lookup_task(
        &mut cache,
        SECURITY,
        9999,
        t0,
        Span::from_secs(HOUR),
        || Some(names.clone()),
        || {
            fallbacks.fetch_add(1, Ordering::SeqCst);
            Some("from-event-handle".into())
        },
    );
    assert_eq!(first.name.as_deref(), Some("from-event-handle"));
    assert!(!first.hit);
    assert!(first.table_miss);

    let second = lookup_task(
        &mut cache,
        SECURITY,
        9999,
        at(1),
        Span::from_secs(HOUR),
        || panic!("fresh table must not re-enumerate"),
        || {
            fallbacks.fetch_add(1, Ordering::SeqCst);
            Some("from-event-handle-again".into())
        },
    );
    assert_eq!(second.name.as_deref(), Some("from-event-handle-again"));
    assert!(second.table_miss);
    assert_eq!(fallbacks.load(Ordering::SeqCst), 2);

    let known = lookup_task(
        &mut cache,
        SECURITY,
        13312,
        at(2),
        Span::from_secs(HOUR),
        || panic!("fresh table must not re-enumerate"),
        || panic!("known table row must not fall back"),
    );
    assert_eq!(known.name.as_deref(), Some("Process Creation"));
    assert!(known.hit);
}

/// Guard on the guard: if a fallback were inserted, the second lookup of
/// 9999 would be a hit with the fallback string and this test would fail.
/// Restoring an insert-on-fallback makes this red; that is the proof the
/// rule is observable.
#[test]
fn inserting_a_fallback_would_make_the_next_lookup_a_hit() {
    let mut cache = FormatCache::new();
    let t0 = at(0);
    _ = lookup_task(
        &mut cache,
        SECURITY,
        9999,
        t0,
        Span::from_secs(HOUR),
        || Some(security_names()),
        || Some("poison".into()),
    );
    let later = lookup_task(
        &mut cache,
        SECURITY,
        9999,
        t0,
        Span::from_secs(HOUR),
        || panic!("must not re-enumerate"),
        || Some("still-missing".into()),
    );
    assert!(
        later.table_miss,
        "a fallback must not become a table row; if this is a hit the \
         insert-on-fallback defect is back"
    );
    assert_eq!(later.name.as_deref(), Some("still-missing"));
}

/// A stale table that still misses after re-enumeration falls back
/// once; a stale table that gains the value on re-enumeration serves it
/// without fallback.
#[test]
fn stale_miss_re_enumerates_once_before_fallback() {
    let mut cache = FormatCache::new();
    let t0 = at(0);
    let enumerations = AtomicUsize::new(0);

    _ = lookup_task(
        &mut cache,
        SECURITY,
        13312,
        t0,
        Span::from_secs(HOUR),
        || {
            enumerations.fetch_add(1, Ordering::SeqCst);
            Some(security_names())
        },
        || panic!("present row"),
    );

    let mut grown = security_names();
    grown.tasks.insert(42, "Grown".into());
    let later = lookup_task(
        &mut cache,
        SECURITY,
        42,
        at(HOUR),
        Span::from_secs(HOUR),
        || {
            enumerations.fetch_add(1, Ordering::SeqCst);
            Some(grown.clone())
        },
        || panic!("re-enumerated table contains 42"),
    );
    assert_eq!(later.name.as_deref(), Some("Grown"));
    assert!(later.hit);
    assert_eq!(enumerations.load(Ordering::SeqCst), 2);

    let still_absent = lookup_task(
        &mut cache,
        SECURITY,
        7,
        at(HOUR + 1),
        Span::from_secs(HOUR),
        || panic!("table is fresh after the re-enumeration"),
        || Some("fallback-7".into()),
    );
    assert_eq!(still_absent.name.as_deref(), Some("fallback-7"));
    assert!(still_absent.table_miss);
}

/// Publishers and locales partition the map. Casefolding means two
/// spellings of one publisher share a table.
#[test]
fn publisher_and_locale_partition_the_map_and_names_are_casefolded() {
    let mut cache = FormatCache::new();
    let t0 = at(0);

    let a = lookup_task(
        &mut cache,
        "Publisher-A",
        1,
        t0,
        Span::from_secs(HOUR),
        || {
            let mut n = PublisherNames::default();
            n.tasks.insert(1, "A".into());
            Some(n)
        },
        || panic!("present"),
    );
    let b = lookup_task(
        &mut cache,
        "Publisher-B",
        1,
        t0,
        Span::from_secs(HOUR),
        || {
            let mut n = PublisherNames::default();
            n.tasks.insert(1, "B".into());
            Some(n)
        },
        || panic!("present"),
    );
    assert_eq!(a.name.as_deref(), Some("A"));
    assert_eq!(b.name.as_deref(), Some("B"));

    let folded = lookup_task(
        &mut cache,
        "publisher-a",
        1,
        t0,
        Span::from_secs(HOUR),
        || panic!("casefolded publisher must share the table"),
        || panic!("present"),
    );
    assert_eq!(folded.name.as_deref(), Some("A"));
    assert!(folded.hit);

    let other_locale = cache.lookup(
        "Publisher-A",
        0x0409,
        NameField::Task,
        1,
        t0,
        Span::from_secs(HOUR),
        || {
            let mut n = PublisherNames::default();
            n.tasks.insert(1, "en-US".into());
            Some(n)
        },
        || panic!("present"),
    );
    assert_eq!(other_locale.name.as_deref(), Some("en-US"));
    assert_eq!(cache.len(), 3);
}

/// Custom levels at 16+ come from the table; a missing level asks the fallback
/// (the caller applies the hardcoded English fallback).
#[test]
fn custom_levels_come_from_the_table() {
    let mut cache = FormatCache::new();
    let t0 = at(0);
    let custom = cache.lookup(
        SECURITY,
        SYSTEM_DEFAULT_LOCALE,
        NameField::Level,
        16,
        t0,
        Span::from_secs(HOUR),
        || Some(security_names()),
        || panic!("16 is in the table"),
    );
    assert_eq!(custom.name.as_deref(), Some("Custom-16"));
    assert!(custom.hit);

    let missing = cache.lookup(
        SECURITY,
        SYSTEM_DEFAULT_LOCALE,
        NameField::Level,
        99,
        t0,
        Span::from_secs(HOUR),
        || panic!("fresh"),
        || None,
    );
    assert!(missing.name.is_none());
    assert!(missing.table_miss);
}

#[test]
fn keyword_bits_match_in_enumeration_order() {
    let mut cache = FormatCache::new();
    let t0 = at(0);
    let mask = 0x8020_0000_0000_0000;
    let got = cache.lookup_keywords(
        SECURITY,
        SYSTEM_DEFAULT_LOCALE,
        mask,
        t0,
        Span::from_secs(HOUR),
        || Some(security_names()),
        || panic!("bits are in the table"),
    );
    assert_eq!(
        got.names,
        vec!["Audit Success".to_string(), "Classic".to_string()]
    );
    assert!(got.hit);
    assert!(!got.table_miss);
}

#[test]
fn keyword_miss_falls_back_and_does_not_insert() {
    let mut cache = FormatCache::new();
    let t0 = at(0);
    let got = cache.lookup_keywords(
        SECURITY,
        SYSTEM_DEFAULT_LOCALE,
        0x0001,
        t0,
        Span::from_secs(HOUR),
        || Some(security_names()),
        || Some("Alpha; Beta".into()),
    );
    assert_eq!(got.names, vec!["Alpha".to_string(), "Beta".to_string()]);
    assert!(got.table_miss);

    let again = cache.lookup_keywords(
        SECURITY,
        SYSTEM_DEFAULT_LOCALE,
        0x0001,
        t0,
        Span::from_secs(HOUR),
        || panic!("fresh"),
        || Some("Alpha; Beta".into()),
    );
    assert!(again.table_miss);
}

/// A present message ID that failed to format must not become the
/// symbolic name. That is how TaskName would leak into the table.
#[test]
fn a_failed_format_of_a_real_message_id_is_omitted_not_symbolic() {
    assert_eq!(
        choose_table_display(42, None, Some("TaskName".into())),
        None
    );
    assert_eq!(
        choose_table_display(42, Some("Formatted".into()), Some("TaskName".into())).as_deref(),
        Some("Formatted")
    );
    assert_eq!(
        choose_table_display(u32::MAX, None, Some("TaskName".into())).as_deref(),
        Some("TaskName")
    );
    assert_eq!(
        choose_table_display(u32::MAX, Some("ignored".into()), Some("TaskName".into()))
            .as_deref(),
        Some("TaskName"),
        "when the ID is absent the formatted argument is not consulted"
    );
    assert_eq!(
        choose_table_display(u32::MAX, None, Some(String::new())),
        None
    );
    assert_eq!(
        choose_table_display(7, Some(String::new()), Some("X".into())),
        None
    );
}

/// A publisher that nothing is known of is enumerated, a known one is not until
/// its table is stale, and one that cannot be opened waits for the refresh.
#[test]
fn preparing_follows_what_is_known() {
    let mut cache = FormatCache::with_capacity(4);
    let hour = Span::from_secs(HOUR);
    let prepare =
        |cache: &mut FormatCache, secs| cache.prepare("P", SYSTEM_DEFAULT_LOCALE, at(secs), hour);
    assert_eq!(prepare(&mut cache, 0), Prepare::NeedEnumerate);
    cache.store_unopenable("P", SYSTEM_DEFAULT_LOCALE, at(0));
    assert_eq!(prepare(&mut cache, HOUR - 1), Prepare::Unopenable);
    assert_eq!(prepare(&mut cache, HOUR), Prepare::NeedEnumerate);
    cache.store_table("P", SYSTEM_DEFAULT_LOCALE, at(HOUR), security_names());
    assert_eq!(prepare(&mut cache, HOUR), Prepare::Ready);
    assert_eq!(prepare(&mut cache, 2 * HOUR - 1), Prepare::Ready);
    assert_eq!(prepare(&mut cache, 2 * HOUR), Prepare::NeedEnumerate);
    assert_eq!(
        cache.get_scalar("p", SYSTEM_DEFAULT_LOCALE, NameField::Task, 13312),
        Some("Process Creation".to_string())
    );
    assert_eq!(
        cache.get_keywords("P", SYSTEM_DEFAULT_LOCALE, 0),
        Some(Vec::new())
    );
    assert_eq!(cache.get_keywords("Q", SYSTEM_DEFAULT_LOCALE, 0), None);
}

/// A full cache drops the table that was used least recently.
#[test]
fn the_table_used_least_recently_leaves() {
    let mut cache = FormatCache::with_capacity(2);
    for publisher in ["A", "B"] {
        cache.store_table(publisher, SYSTEM_DEFAULT_LOCALE, at(0), security_names());
    }
    let hour = Span::from_secs(HOUR);
    assert_eq!(
        cache.prepare("A", SYSTEM_DEFAULT_LOCALE, at(1), hour),
        Prepare::Ready
    );
    cache.store_table("C", SYSTEM_DEFAULT_LOCALE, at(1), security_names());
    assert_eq!(cache.len(), 2);
    assert_eq!(
        cache.prepare("A", SYSTEM_DEFAULT_LOCALE, at(1), hour),
        Prepare::Ready
    );
    assert_eq!(
        cache.prepare("B", SYSTEM_DEFAULT_LOCALE, at(1), hour),
        Prepare::NeedEnumerate
    );
    assert_eq!(
        cache.prepare("C", SYSTEM_DEFAULT_LOCALE, at(1), hour),
        Prepare::Ready
    );
}

/// A value wider than its field has no name, and takes no other value's.
#[test]
fn a_value_wider_than_its_field_has_no_name() {
    let mut cache = FormatCache::new();
    let mut names = PublisherNames::default();
    names.tasks.insert(7, "Logon".to_string());
    names.opcodes.insert(7, "Start".to_string());
    names.levels.insert(7, "Custom".to_string());
    cache.store_table("Contoso-Provider", SYSTEM_DEFAULT_LOCALE, at(0), names);
    for (field, wide) in [
        (NameField::Task, 65_543),
        (NameField::Opcode, 263),
        (NameField::Level, 263),
    ] {
        let name = cache.get_scalar("Contoso-Provider", SYSTEM_DEFAULT_LOCALE, field, 7);
        assert!(name.is_some());
        let name = cache.get_scalar("Contoso-Provider", SYSTEM_DEFAULT_LOCALE, field, wide);
        assert_eq!(name, None);
    }
    let lookup = cache.lookup(
        "Contoso-Provider",
        SYSTEM_DEFAULT_LOCALE,
        NameField::Task,
        65_543,
        at(0),
        Span::from_secs(HOUR),
        || panic!("the table is fresh"),
        || Some("from the event".to_string()),
    );
    assert_eq!(lookup.name.as_deref(), Some("from the event"));
    assert!(!lookup.hit);
    assert!(lookup.table_miss);
}

/// Any capacity but zero is accepted; no room is set aside for it.
#[test]
fn a_cache_may_have_any_capacity() {
    let mut cache = FormatCache::with_capacity(usize::MAX);
    cache.store_unopenable("Contoso-Provider", SYSTEM_DEFAULT_LOCALE, at(0));
    assert_eq!(cache.len(), 1);
}
