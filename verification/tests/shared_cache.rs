//! The caches that all sources share.

use std::sync::{Arc, Mutex};

use windows_event_log::cache::BoundedCache;
use windows_event_log::format_cache::{NameField, Prepare, PublisherNames, SYSTEM_DEFAULT_LOCALE};
use windows_event_log::shared_cache::{
    PublisherEntry, SharedCaches, FORMAT_CACHE_CAPACITY, PUBLISHER_CACHE_CAPACITY,
};
use windows_event_log::time::{Span, Tick};

type Caches = SharedCaches<Arc<Mutex<PublisherEntry>>>;

fn fresh() -> Arc<Mutex<PublisherEntry>> {
    Arc::new(Mutex::new(PublisherEntry::new()))
}

fn names_with_task(id: u16, name: &str) -> PublisherNames {
    let mut names = PublisherNames::default();
    names.tasks.insert(id, name.to_string());
    names
}

#[test]
fn one_publisher_table_serves_every_source() {
    let mut caches: Caches = SharedCaches::new();
    let now = Tick { nanos: 1 };
    let refresh = Span::from_secs(86_400);

    // The "first source" enumerates.
    assert_eq!(
        caches.format_prepare("Contoso-Provider", SYSTEM_DEFAULT_LOCALE, now, refresh),
        Prepare::NeedEnumerate,
        "an unseen publisher must be enumerated once"
    );
    caches.format_store_table(
        "Contoso-Provider",
        SYSTEM_DEFAULT_LOCALE,
        now,
        names_with_task(7, "Logon"),
    );

    // The "second source" finds it resident and enumerates nothing.
    assert_eq!(
        caches.format_prepare("Contoso-Provider", SYSTEM_DEFAULT_LOCALE, now, refresh),
        Prepare::Ready,
        "a second source must reuse the table rather than build its own"
    );
    assert_eq!(
        caches
            .format_scalar(
                "Contoso-Provider",
                SYSTEM_DEFAULT_LOCALE,
                NameField::Task,
                7
            )
            .as_deref(),
        Some("Logon")
    );
    assert_eq!(caches.format_len(), 1, "one publisher, one resident table");
}

#[test]
fn the_format_cache_evicts_rather_than_growing_without_end() {
    let mut caches: Caches = SharedCaches::new();
    let now = Tick { nanos: 1 };

    for i in 0..(FORMAT_CACHE_CAPACITY + 64) {
        caches.format_store_table(
            &format!("Publisher-{i}"),
            SYSTEM_DEFAULT_LOCALE,
            now,
            names_with_task(1, "Task"),
        );
    }
    assert_eq!(
        caches.format_len(),
        FORMAT_CACHE_CAPACITY,
        "the cache must stop at its capacity, not track every publisher seen"
    );
}

#[test]
fn a_sid_answer_is_remembered_either_way() {
    let mut caches: Caches = SharedCaches::new();

    assert!(
        caches.sid_lookup("S-1-5-21-fake").is_none(),
        "not asked yet"
    );
    caches.sid_store("S-1-5-21-fake", None);
    assert_eq!(
        caches.sid_lookup("S-1-5-21-fake"),
        Some(None),
        "an unresolvable SID is remembered as unresolvable, not forgotten"
    );

    caches.sid_store("S-1-5-18", Some("NT AUTHORITY".to_string()));
    assert_eq!(
        caches.sid_lookup("S-1-5-18"),
        Some(Some("NT AUTHORITY".to_string()))
    );
}

/// An entry that was evicted while a caller holds it stays valid for that caller.
#[test]
fn eviction_cannot_close_a_handle_a_caller_still_holds() {
    let mut caches: Caches = SharedCaches::new();

    let held = Arc::clone(caches.publisher_entry("Held-Provider", fresh()));
    for i in 0..(PUBLISHER_CACHE_CAPACITY + 8) {
        _ = caches.publisher_entry(&format!("Filler-{i}"), fresh());
    }
    assert_eq!(
        caches.publisher_len(),
        PUBLISHER_CACHE_CAPACITY,
        "the publisher cache is bounded too"
    );

    // Evicted from the map, still usable through the Arc the caller took.
    let again = Arc::clone(caches.publisher_entry("Held-Provider", fresh()));
    assert!(!Arc::ptr_eq(&held, &again));
    assert_eq!(held.lock().unwrap().raw(false), None);
}

/// The entry of a publisher is made once and then shared.
#[test]
fn a_publisher_entry_is_shared() {
    let mut caches: Caches = SharedCaches::new();
    let first = Arc::clone(caches.publisher_entry("P", fresh()));
    first.lock().unwrap().record(77);
    let second = Arc::clone(caches.publisher_entry("P", fresh()));
    assert!(Arc::ptr_eq(&first, &second));
    assert_eq!(second.lock().unwrap().raw(true), Some(77));
    assert_eq!(second.lock().unwrap().opened(), 77);
    caches.clear_all();
    assert_eq!(caches.publisher_len(), 0);
}

#[test]
fn a_failed_open_is_retried_only_on_request() {
    let mut entry = PublisherEntry::new();
    assert_eq!(entry.raw(false), None);
    assert_eq!(entry.opened(), 0);
    entry.record(0);
    assert_eq!(entry.raw(false), Some(0));
    assert_eq!(entry.raw(true), None);
    entry.record(9);
    assert_eq!(entry.raw(true), Some(9));
}

#[test]
fn a_bounded_cache_hands_back_what_leaves() {
    let key = |name: &str| (name.to_string(), 0u32);
    let mut cache: BoundedCache<u8> = BoundedCache::with_capacity(2);
    assert_eq!(cache.put(key("a"), 1), None);
    assert_eq!(cache.put(key("b"), 2), None);
    assert_eq!(cache.put(key("a"), 3), Some(1));
    assert_eq!(cache.put(key("c"), 4), Some(2));
    assert_eq!(cache.get(&key("b")), None);
    assert_eq!(cache.get(&key("a")), Some(&3));
    assert_eq!(cache.put(key("d"), 5), Some(4));
    assert_eq!(cache.get(&("a".to_string(), 1)), None);
    assert_eq!(cache.len(), 2);
    cache.clear();
    assert_eq!(cache.len(), 0);
    assert_eq!(cache.get(&key("a")), None);
    for i in 0..100u8 {
        cache.put(key(&format!("k{i}")), i);
        if i > 0 {
            assert_eq!(cache.get(&key(&format!("k{}", i - 1))), Some(&(i - 1)));
        }
        assert_eq!(cache.get(&key(&format!("k{i}"))), Some(&i));
    }
    assert_eq!(cache.len(), 2);
}
