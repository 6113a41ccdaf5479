//! What the shared caches remember.

use vstd::prelude::*;

use crate::shared_cache::{PublisherEntry, SharedCaches};
use crate::sid_resolver::{SidAction, SidEvent};

verus! {

/// A key is looked for among all entries: it has a value exactly where some entry
/// has it, and then the value of that one.
pub proof fn keys_are_found_anywhere<V>(
    entries: Seq<((Seq<char>, u32), V)>,
    key: (Seq<char>, u32),
    i: int,
)
    requires
        forall|a: int, b: int|
            0 <= a < b < entries.len() ==> (#[trigger] entries[a]).0 != (#[trigger] entries[b]).0,
    ensures
        0 <= i < entries.len() && entries[i].0 == key ==> crate::cache::value_of(entries, key)
            == Some(entries[i].1),
        crate::cache::value_of(entries, key) is Some ==> exists|j: int|
            0 <= j < entries.len() && (#[trigger] entries[j]).0 == key,
    decreases entries.len(),
{
    if entries.len() > 0 && entries[0].0 != key {
        let rest = entries.skip(1);
        assert forall|a: int, b: int| 0 <= a < b < rest.len() implies (#[trigger] rest[a]).0 != (
        #[trigger] rest[b]).0 by {
            assert(entries[a + 1].0 != entries[b + 1].0);
        }
        keys_are_found_anywhere(rest, key, i - 1);
        if 0 < i < entries.len() {
            assert(rest[i - 1] == entries[i]);
        }
        if crate::cache::value_of(entries, key) is Some {
            assert(crate::cache::value_of(rest, key) is Some);
            let j = choose|j: int| 0 <= j < rest.len() && (#[trigger] rest[j]).0 == key;
            assert(entries[j + 1].0 == key);
        }
        lemma_position_in_range(rest, key);
        if 0 <= i < entries.len() && entries[i].0 == key {
            assert(crate::cache::position_of(entries, key) == 1 + crate::cache::position_of(
                rest,
                key,
            ));
            assert(rest[crate::cache::position_of(rest, key)] == entries[crate::cache::position_of(
                entries,
                key,
            )]);
        }
    } else if entries.len() > 0 {
        assert(entries[0].0 == key);
        if 0 < i < entries.len() {
            assert(entries[0].0 != entries[i].0);
        }
    }
}

/// A value that is stored stands in front of the others, which keep their order; and
/// one of them leaves at most.
pub proof fn stored_values_come_first<V>(
    entries: Seq<((Seq<char>, u32), V)>,
    capacity: nat,
    key: (Seq<char>, u32),
    value: V,
)
    requires
        entries.len() <= capacity,
        0 < capacity,
    ensures
        ({
            let after = crate::cache::stored(entries, capacity, key, value);
            &&& after[0] == (key, value)
            &&& after.len() <= capacity
            &&& entries.len() < capacity ==> after.len() >= entries.len()
            &&& !crate::cache::is_resident(entries, key) && entries.len() < capacity
                ==> after.skip(1) == entries
            &&& !crate::cache::is_resident(entries, key) && entries.len() == capacity
                ==> after.skip(1) == entries.drop_last()
        }),
{
    let after = crate::cache::stored(entries, capacity, key, value);
    if crate::cache::is_resident(entries, key) {
        lemma_position_in_range(entries, key);
    } else if entries.len() < capacity {
        assert(after.skip(1) =~= entries);
    } else {
        assert(after.skip(1) =~= entries.drop_last());
    }
}

proof fn lemma_position_in_range<V>(entries: Seq<((Seq<char>, u32), V)>, key: (Seq<char>, u32))
    ensures
        0 <= crate::cache::position_of(entries, key) <= entries.len(),
    decreases entries.len(),
{
    if entries.len() > 0 && entries[0].0 != key {
        lemma_position_in_range(entries.skip(1), key);
    }
}

/// What leaves when a key is given a value: the value that the key had; else, where
/// the cache is full, the one at the end; else nothing.
pub proof fn values_leave_from_the_end<V>(
    entries: Seq<((Seq<char>, u32), V)>,
    capacity: nat,
    key: (Seq<char>, u32),
    i: int,
)
    requires
        forall|a: int, b: int|
            0 <= a < b < entries.len() ==> (#[trigger] entries[a]).0 != (#[trigger] entries[b]).0,
    ensures
        ({
            let left = crate::cache::displaced(entries, capacity, key);
            let absent = forall|j: int| 0 <= j < entries.len() ==> (#[trigger] entries[j]).0 != key;
            &&& 0 <= i < entries.len() && entries[i].0 == key ==> left == Some(entries[i].1)
            &&& absent && entries.len() == capacity && capacity > 0 ==> left == Some(
                entries[entries.len() - 1].1,
            )
            &&& absent && entries.len() < capacity ==> left is None
        }),
{
    keys_are_found_anywhere(entries, key, i);
}

/// A key that is looked up moves to the front with its value, and the others keep
/// their order behind it; one that is not there changes nothing.
pub proof fn looked_up_keys_move_to_the_front<V>(
    entries: Seq<((Seq<char>, u32), V)>,
    key: (Seq<char>, u32),
    i: int,
)
    requires
        forall|a: int, b: int|
            0 <= a < b < entries.len() ==> (#[trigger] entries[a]).0 != (#[trigger] entries[b]).0,
    ensures
        0 <= i < entries.len() && entries[i].0 == key ==> crate::cache::touched(entries, key)
            == seq![entries[i]] + entries.take(i) + entries.skip(i + 1),
        (forall|j: int| 0 <= j < entries.len() ==> (#[trigger] entries[j]).0 != key)
            ==> crate::cache::touched(entries, key) == entries,
{
    keys_are_found_anywhere(entries, key, i);
    lemma_position_in_range(entries, key);
    if 0 <= i < entries.len() && entries[i].0 == key {
        lemma_position_is_the_place(entries, key, i);
        assert(crate::cache::touched(entries, key) =~= seq![entries[i]] + entries.take(i)
            + entries.skip(i + 1));
    }
}

proof fn lemma_position_is_the_place<V>(
    entries: Seq<((Seq<char>, u32), V)>,
    key: (Seq<char>, u32),
    i: int,
)
    requires
        forall|a: int, b: int|
            0 <= a < b < entries.len() ==> (#[trigger] entries[a]).0 != (#[trigger] entries[b]).0,
        0 <= i < entries.len(),
        entries[i].0 == key,
    ensures
        crate::cache::position_of(entries, key) == i,
    decreases entries.len(),
{
    if i > 0 {
        let rest = entries.skip(1);
        assert(entries[0].0 != entries[i].0);
        assert forall|a: int, b: int| 0 <= a < b < rest.len() implies (#[trigger] rest[a]).0 != (
        #[trigger] rest[b]).0 by {
            assert(entries[a + 1].0 != entries[b + 1].0);
        }
        lemma_position_is_the_place(rest, key, i - 1);
    }
}

/// An account that is remembered is answered from memory; one that is not, with what
/// the system says, which is then remembered, also that there is no name.
pub proof fn accounts_are_resolved(
    before: Seq<((Seq<char>, u32), Option<String>)>,
    sid: Seq<char>,
    after: Seq<((Seq<char>, u32), Option<String>)>,
    name: Option<String>,
    answer: Option<String>,
    i: int,
)
    requires
        crate::sid_resolver::is_resolution(before, sid, after, name, answer),
        forall|a: int, b: int|
            0 <= a < b < before.len() ==> (#[trigger] before[a]).0 != (#[trigger] before[b]).0,
    ensures
        0 <= i < before.len() && before[i].0 == (sid, 0u32) ==> name == before[i].1 && after.len()
            == before.len(),
        (forall|j: int| 0 <= j < before.len() ==> (#[trigger] before[j]).0 != (sid, 0u32)) ==> name
            == answer && after[0] == ((sid, 0u32), answer),
{
    let key = (sid, 0u32);
    keys_are_found_anywhere(before, key, i);
    lemma_position_in_range(before, key);
    assert(crate::shared_cache::name_key(sid) == key);
}

/// The caches hold 128 publishers, 512 tables and 4096 accounts, and are empty at
/// first.
pub proof fn caches_are_bounded(caches: SharedCaches<int>)
    requires
        caches.wf(),
    ensures
        caches.publishers.limit() == 128,
        caches.formats.limit() == 512,
        caches.sids.limit() == 4096,
        crate::format_cache::DEFAULT_FORMAT_CAPACITY == 512,
        crate::format_cache::SYSTEM_DEFAULT_LOCALE == 0,
{
}

/// A publisher is opened where it was not yet; one that failed is tried again only
/// where that is asked for.
pub proof fn publishers_are_opened_once(entry: PublisherEntry, retry: bool, raw: Option<i64>)
    requires
        call_ensures(PublisherEntry::raw, (&entry, retry), raw),
    ensures
        entry.handle is None ==> raw is None,
        entry.handle matches Some(h) ==> h.0 != 0 ==> raw == Some(h.0),
        entry.handle matches Some(h) ==> h.0 == 0 ==> raw == if retry {
            None
        } else {
            Some(0i64)
        },
{
}

/// How an attempt went is what is remembered.
pub proof fn attempts_are_remembered(entry: &mut PublisherEntry, raw: i64)
    requires
        call_ensures(PublisherEntry::record, (entry, raw), ()),
    ensures
        final(entry).handle matches Some(h) && h.0 == raw,
{
}

/// An account is named by its name alone, or by its domain, a backslash and its name
/// where it has a domain.
pub proof fn accounts_are_named_with_their_domain(name: Seq<char>, domain: Seq<char>)
    ensures
        domain.len() == 0 ==> crate::sid_resolver::qualified_name(name, domain) == name,
        domain.len() > 0 ==> ({
            let account = crate::sid_resolver::qualified_name(name, domain);
            &&& account.len() == domain.len() + 1 + name.len()
            &&& account.take(domain.len() as int) == domain
            &&& account[domain.len() as int] == '\\'
            &&& account.skip(domain.len() as int + 1) == name
        }),
{
    if domain.len() > 0 {
        let account = crate::sid_resolver::qualified_name(name, domain);
        assert(account.take(domain.len() as int) =~= domain);
        assert(account.skip(domain.len() as int + 1) =~= name);
    }
}

/// A lookup converts, measures, fetches with exactly the room that was measured, and
/// frees what it converted; what has no name is not fetched, and what is no
/// identifier is not measured.
pub proof fn lookups_go_step_by_step(
    name_len: u32,
    domain_len: u32,
    name: Vec<u16>,
    domain: Vec<u16>,
    known: Option<Seq<char>>,
)
    ensures
        crate::sid_resolver::next_sid_action(SidAction::Convert, SidEvent::Converted(true))
            == SidAction::Measure,
        crate::sid_resolver::next_sid_action(SidAction::Convert, SidEvent::Converted(false))
            == SidAction::Done,
        name_len > 0 ==> crate::sid_resolver::next_sid_action(
            SidAction::Measure,
            SidEvent::Measured { name_len, domain_len },
        ) == (SidAction::Fetch { name_len, domain_len }),
        name_len == 0 ==> crate::sid_resolver::next_sid_action(
            SidAction::Measure,
            SidEvent::Measured { name_len, domain_len },
        ) == SidAction::Free,
        crate::sid_resolver::next_sid_action(
            SidAction::Fetch { name_len, domain_len },
            SidEvent::Fetched { name, domain },
        ) == SidAction::Free,
        crate::sid_resolver::next_sid_action(
            SidAction::Fetch { name_len, domain_len },
            SidEvent::FetchFailed,
        ) == SidAction::Free,
        crate::sid_resolver::next_sid_action(SidAction::Free, SidEvent::Freed) == SidAction::Done,
        crate::sid_resolver::account_after(
            SidAction::Fetch { name_len, domain_len },
            SidEvent::Fetched { name, domain },
            known,
        ) == Some(
            crate::sid_resolver::qualified_name(
                crate::text::utf16_lossy(name@),
                crate::text::utf16_lossy(domain@),
            ),
        ),
        crate::sid_resolver::account_after(
            SidAction::Fetch { name_len, domain_len },
            SidEvent::FetchFailed,
            known,
        ) == known,
        crate::sid_resolver::account_after(SidAction::Free, SidEvent::Freed, known) == known,
{
}

} // verus!
