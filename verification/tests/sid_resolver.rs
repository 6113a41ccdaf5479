//! Account names.

use windows_event_log::shared_cache::SharedCaches;
use windows_event_log::sid_resolver::{SidAction, SidEvent, SidLookup, SidResolver};

type Caches = SharedCaches<()>;

fn units(text: &str) -> Vec<u16> {
    text.encode_utf16().collect()
}

/// The accounts that every system knows.
fn well_known(sid: &str) -> Option<(&'static str, &'static str)> {
    match sid {
        "S-1-5-18" => Some(("SYSTEM", "NT AUTHORITY")),
        "S-1-5-19" => Some(("LOCAL SERVICE", "NT AUTHORITY")),
        "S-1-5-20" => Some(("NETWORK SERVICE", "NT AUTHORITY")),
        "S-1-1-0" => Some(("Everyone", "")),
        _ => None,
    }
}

/// Run a lookup against the accounts above. Returns the name and the number of
/// times that the binary identifier was freed.
fn lookup_sid(sid: &str) -> (Option<String>, usize) {
    let mut lookup = SidLookup::start();
    let mut frees = 0;
    let account = well_known(sid);
    loop {
        let event = match lookup.action {
            SidAction::Convert => SidEvent::Converted(sid.starts_with("S-1-")),
            SidAction::Measure => match account {
                Some((name, domain)) => SidEvent::Measured {
                    name_len: units(name).len() as u32 + 1,
                    domain_len: units(domain).len() as u32 + 1,
                },
                None => SidEvent::Measured {
                    name_len: 0,
                    domain_len: 0,
                },
            },
            SidAction::Fetch { name_len, .. } => {
                let (name, domain) = account.unwrap();
                assert_eq!(name_len as usize, units(name).len() + 1);
                SidEvent::Fetched {
                    name: units(name),
                    domain: units(domain),
                }
            }
            SidAction::Free => {
                frees += 1;
                SidEvent::Freed
            }
            SidAction::Done => return (lookup.account, frees),
        };
        lookup.advance(event);
    }
}

#[test]
fn test_sid_resolver_caches_results() {
    let resolver = SidResolver::new();
    let mut caches: Caches = SharedCaches::new();
    // Well-known SID: S-1-5-18 = NT AUTHORITY\SYSTEM
    let first = resolver.resolve(&mut caches, "S-1-5-18", || lookup_sid("S-1-5-18").0);
    let second = resolver.resolve(&mut caches, "S-1-5-18", || {
        panic!("the answer is remembered")
    });
    assert_eq!(first, second);
    assert_eq!(first.as_deref(), Some("NT AUTHORITY\\SYSTEM"));
}

/// That an account has no name is remembered too.
#[test]
fn an_account_without_a_name_is_asked_for_once() {
    let resolver = SidResolver::new();
    let mut caches: Caches = SharedCaches::new();
    assert_eq!(resolver.recall(&mut caches, "S-1-5-99"), None);
    assert_eq!(resolver.remember(&mut caches, "S-1-5-99", None), None);
    assert_eq!(resolver.recall(&mut caches, "S-1-5-99"), Some(None));
    let again = resolver.resolve(&mut caches, "S-1-5-99", || {
        panic!("the answer is remembered")
    });
    assert_eq!(again, None);
    let name = resolver.remember(&mut caches, "S-1-5-18", Some("SYSTEM".to_string()));
    assert_eq!(name.as_deref(), Some("SYSTEM"));
    assert_eq!(
        resolver.recall(&mut caches, "S-1-5-18"),
        Some(Some("SYSTEM".to_string()))
    );
}

#[test]
fn test_invalid_sid_returns_none() {
    let resolver = SidResolver::new();
    let mut caches: Caches = SharedCaches::new();
    assert!(resolver
        .resolve(&mut caches, "not-a-sid", || lookup_sid("not-a-sid").0)
        .is_none());
    assert!(resolver
        .resolve(&mut caches, "", || lookup_sid("").0)
        .is_none());
}

#[test]
fn test_well_known_sids() {
    let resolver = SidResolver::new();
    let mut caches: Caches = SharedCaches::new();

    // S-1-5-18 = SYSTEM
    if let Some(name) = resolver.resolve(&mut caches, "S-1-5-18", || lookup_sid("S-1-5-18").0) {
        assert!(
            name.contains("SYSTEM"),
            "S-1-5-18 should resolve to SYSTEM, got: {name}"
        );
    }

    // S-1-5-19 = LOCAL SERVICE
    if let Some(name) = resolver.resolve(&mut caches, "S-1-5-19", || lookup_sid("S-1-5-19").0) {
        assert!(
            name.contains("LOCAL SERVICE"),
            "S-1-5-19 should resolve to LOCAL SERVICE, got: {name}"
        );
    }

    // S-1-5-20 = NETWORK SERVICE
    if let Some(name) = resolver.resolve(&mut caches, "S-1-5-20", || lookup_sid("S-1-5-20").0) {
        assert!(
            name.contains("NETWORK SERVICE"),
            "S-1-5-20 should resolve to NETWORK SERVICE, got: {name}"
        );
    }
}

/// An identifier that was converted is freed exactly once, however the lookup
/// ends.
#[test]
fn converted_identifiers_are_freed_once() {
    assert_eq!(
        lookup_sid("S-1-5-19"),
        (Some("NT AUTHORITY\\LOCAL SERVICE".to_string()), 1)
    );
    assert_eq!(lookup_sid("S-1-1-0"), (Some("Everyone".to_string()), 1));
    assert_eq!(lookup_sid("S-1-5-21-1-2-3"), (None, 1));
    assert_eq!(lookup_sid("not-a-sid"), (None, 0));

    let mut lookup = SidLookup::start();
    lookup.advance(SidEvent::Converted(true));
    lookup.advance(SidEvent::Measured {
        name_len: 4,
        domain_len: 4,
    });
    assert_eq!(lookup.advance(SidEvent::FetchFailed), SidAction::Free);
    assert_eq!(lookup.advance(SidEvent::Freed), SidAction::Done);
    assert_eq!(lookup.account, None);
}

/// Names are decoded as UTF-16, with a replacement for what is no character.
#[test]
fn names_are_decoded_as_utf_16() {
    let mut lookup = SidLookup::start();
    lookup.advance(SidEvent::Converted(true));
    lookup.advance(SidEvent::Measured {
        name_len: 9,
        domain_len: 9,
    });
    lookup.advance(SidEvent::Fetched {
        name: vec![0x0041, 0xD83D, 0xDE00, 0xD800, 0x0042, 0xDC00],
        domain: units("DÖM"),
    });
    assert_eq!(
        lookup.account.as_deref(),
        Some("DÖM\\A\u{1F600}\u{FFFD}B\u{FFFD}")
    );
}

/// An account without a name is asked for once.
#[test]
fn a_missing_account_is_asked_for_once() {
    let resolver = SidResolver::new();
    let mut caches: Caches = SharedCaches::new();
    assert_eq!(resolver.resolve(&mut caches, "S-1-9", || None), None);
    assert_eq!(
        resolver.resolve(&mut caches, "S-1-9", || panic!("asked twice")),
        None
    );
}
