//! The caches that all sources of a process share: publisher handles, name
//! tables and account names. Each is keyed by what means the same on the whole
//! host, and each is bounded.
//!
//! A caller holds the lock on a cache only while it looks up or stores. What is
//! learned from the system in between is learned without it.

use vstd::prelude::*;

use crate::cache::BoundedCache;
use crate::format_cache::{FormatCache, NameField, Prepare, PublisherNames};
use crate::subscription::PublisherHandle;
use crate::time::{Span, Tick};

verus! {

/// Publisher handles kept open.
pub const PUBLISHER_CACHE_CAPACITY: usize = 128;

/// Name tables kept.
pub const FORMAT_CACHE_CAPACITY: usize = 512;

/// Account names kept.
pub const SID_CACHE_CAPACITY: usize = 4096;

/// One publisher's metadata handle. A failed open is remembered as the null
/// handle, so that a publisher without metadata is not opened for every event.
#[derive(Debug)]
pub struct PublisherEntry {
    pub handle: Option<PublisherHandle>,
}

impl PublisherEntry {
    /// The handle as an integer, if an open was attempted.
    pub open spec fn attempted(self) -> Option<i64> {
        match self.handle {
            Some(h) => Some(h.0),
            None => None,
        }
    }

    /// The handle to use without opening the publisher.
    pub open spec fn usable(self, retry_failed: bool) -> Option<i64> {
        match self.attempted() {
            Some(h) => if h != 0 || !retry_failed {
                Some(h)
            } else {
                None
            },
            None => None,
        }
    }

    /// An entry that no open was attempted for.
    pub fn new() -> (entry: PublisherEntry)
        ensures
            entry.attempted() is None,
    {
        PublisherEntry { handle: None }
    }

    /// The handle to use, or nothing where the publisher has to be opened
    /// first. `retry_failed` asks for another attempt after a failed one.
    pub fn raw(&self, retry_failed: bool) -> (raw: Option<i64>)
        ensures
            raw == self.usable(retry_failed),
    {
        match &self.handle {
            Some(existing) => if existing.0 != 0 || !retry_failed {
                Some(existing.0)
            } else {
                None
            },
            None => None,
        }
    }

    /// Remember how an open went; the null handle stands for a failure.
    pub fn record(&mut self, raw: i64)
        ensures
            final(self).attempted() == Some(raw),
    {
        self.handle = Some(PublisherHandle(raw));
    }

    /// The handle as opened, or the null handle.
    pub fn opened(&self) -> (raw: i64)
        ensures
            raw == match self.attempted() {
                Some(h) => h,
                None => 0,
            },
    {
        match &self.handle {
            Some(existing) => existing.0,
            None => 0,
        }
    }
}

/// The key of a cache that has no locale.
pub open spec fn name_key(name: Seq<char>) -> (Seq<char>, u32) {
    (name, 0u32)
}

fn own_key(name: &str) -> (key: (String, u32))
    ensures
        (key.0@, key.1) == name_key(name@),
{
    (name.to_owned(), 0)
}

/// The shared caches. `P` is what a caller keeps for a publisher.
pub struct SharedCaches<P> {
    pub publishers: BoundedCache<P>,
    pub formats: FormatCache,
    pub sids: BoundedCache<Option<String>>,
}

impl<P> SharedCaches<P> {
    pub open spec fn wf(self) -> bool {
        &&& self.publishers.wf()
        &&& self.formats.wf()
        &&& self.sids.wf()
        &&& self.publishers.limit() == PUBLISHER_CACHE_CAPACITY
        &&& self.formats.limit() == FORMAT_CACHE_CAPACITY
        &&& self.sids.limit() == SID_CACHE_CAPACITY
    }

    /// Empty caches.
    pub fn new() -> (caches: SharedCaches<P>)
        ensures
            caches.wf(),
            caches.publishers@.len() == 0,
            caches.formats@.len() == 0,
            caches.sids@.len() == 0,
    {
        SharedCaches {
            publishers: BoundedCache::with_capacity(PUBLISHER_CACHE_CAPACITY),
            formats: FormatCache::with_capacity(FORMAT_CACHE_CAPACITY),
            sids: BoundedCache::with_capacity(SID_CACHE_CAPACITY),
        }
    }

    /// The entry of a publisher, which is `fresh` where there was none.
    pub fn publisher_entry(&mut self, provider_name: &str, fresh: P) -> (entry: &P)
        requires
            old(self).wf(),
        ensures
            final(self).wf(),
            final(self).formats == old(self).formats,
            final(self).sids == old(self).sids,
            ({
                let key = name_key(provider_name@);
                match crate::cache::value_of(old(self).publishers@, key) {
                    Some(existing) => {
                        &&& *entry == existing
                        &&& final(self).publishers@ == crate::cache::touched(
                            old(self).publishers@,
                            key,
                        )
                    },
                    None => {
                        &&& *entry == fresh
                        &&& final(self).publishers@ == crate::cache::stored(
                            old(self).publishers@,
                            PUBLISHER_CACHE_CAPACITY as nat,
                            key,
                            fresh,
                        )
                    },
                }
            }),
    {
        let key = own_key(provider_name);
        let ghost name = (key.0@, key.1);
        let ghost start = self.publishers@;
        proof {
            self.publishers.stays_bounded();
            crate::cache::looking_up_changes_no_value(start, name, name);
            crate::cache::stored_values_are_found(
                start,
                PUBLISHER_CACHE_CAPACITY as nat,
                name,
                fresh,
            );
            crate::cache::the_front_stays_in_front(
                start,
                PUBLISHER_CACHE_CAPACITY as nat,
                name,
                fresh,
            );
        }
        let resident = self.publishers.get(&key).is_some();
        if !resident {
            self.publishers.put(own_key(provider_name), fresh);
        }
        match self.publishers.get(&key) {
            Some(entry) => entry,
            None => vstd::pervasive::unreached(),
        }
    }

    /// What has to be done before a publisher's names are looked up.
    pub fn format_prepare(&mut self, publisher: &str, locale: u32, now: Tick, refresh: Span) -> (
        prepare: Prepare)
        requires
            old(self).wf(),
        ensures
            final(self).wf(),
            final(self).publishers == old(self).publishers,
            final(self).sids == old(self).sids,
            final(self).formats@ == crate::cache::touched(
                old(self).formats@,
                crate::format_cache::table_key(publisher@, locale),
            ),
            prepare == crate::format_cache::prepared(
                old(self).formats.known(publisher@, locale),
                now,
                refresh@,
            ),
    {
        self.formats.prepare(publisher, locale, now, refresh)
    }

    /// Store a table that was just enumerated.
    pub fn format_store_table(
        &mut self,
        publisher: &str,
        locale: u32,
        now: Tick,
        names: PublisherNames,
    )
        requires
            old(self).wf(),
        ensures
            final(self).wf(),
            final(self).publishers == old(self).publishers,
            final(self).sids == old(self).sids,
            final(self).formats@ == crate::cache::stored(
                old(self).formats@,
                FORMAT_CACHE_CAPACITY as nat,
                crate::format_cache::table_key(publisher@, locale),
                crate::format_cache::enumerated(Some(names), now),
            ),
    {
        self.formats.store_table(publisher, locale, now, names);
    }

    /// Record that a publisher could not be opened.
    pub fn format_store_unopenable(&mut self, publisher: &str, locale: u32, now: Tick)
        requires
            old(self).wf(),
        ensures
            final(self).wf(),
            final(self).publishers == old(self).publishers,
            final(self).sids == old(self).sids,
            final(self).formats@ == crate::cache::stored(
                old(self).formats@,
                FORMAT_CACHE_CAPACITY as nat,
                crate::format_cache::table_key(publisher@, locale),
                crate::format_cache::enumerated(None, now),
            ),
    {
        self.formats.store_unopenable(publisher, locale, now);
    }

    /// The name that a publisher's table gives a value.
    pub fn format_scalar(&mut self, publisher: &str, locale: u32, field: NameField, value: u64) -> (
        name: Option<String>)
        requires
            old(self).wf(),
        ensures
            final(self).wf(),
            final(self).publishers == old(self).publishers,
            final(self).sids == old(self).sids,
            final(self).formats@ == crate::cache::touched(
                old(self).formats@,
                crate::format_cache::table_key(publisher@, locale),
            ),
            crate::status::opt_chars(name) == crate::format_cache::known_scalar(
                old(self).formats.known(publisher@, locale),
                field,
                value,
            ),
    {
        self.formats.get_scalar(publisher, locale, field, value)
    }

    /// The names of the keywords in a mask.
    pub fn format_keywords(&mut self, publisher: &str, locale: u32, mask: u64) -> (names: Option<
        Vec<String>,
    >)
        requires
            old(self).wf(),
        ensures
            final(self).wf(),
            final(self).publishers == old(self).publishers,
            final(self).sids == old(self).sids,
            final(self).formats@ == crate::cache::touched(
                old(self).formats@,
                crate::format_cache::table_key(publisher@, locale),
            ),
            match names {
                Some(list) => Some(crate::text::texts(list@))
                    == crate::format_cache::known_keywords(
                    old(self).formats.known(publisher@, locale),
                    mask,
                ),
                None => crate::format_cache::known_keywords(
                    old(self).formats.known(publisher@, locale),
                    mask,
                ) is None,
            },
    {
        self.formats.get_keywords(publisher, locale, mask)
    }

    /// What is remembered of an account: nothing, that it has no name, or its
    /// name.
    pub fn sid_lookup(&mut self, sid: &str) -> (known: Option<Option<String>>)
        requires
            old(self).wf(),
        ensures
            final(self).wf(),
            final(self).publishers == old(self).publishers,
            final(self).formats == old(self).formats,
            final(self).sids@ == crate::cache::touched(old(self).sids@, name_key(sid@)),
            known == crate::cache::value_of(old(self).sids@, name_key(sid@)),
    {
        match self.sids.get(&own_key(sid)) {
            Some(Some(name)) => Some(Some(name.clone())),
            Some(None) => Some(None),
            None => None,
        }
    }

    /// Remember how an account is called, also that it has no name.
    pub fn sid_store(&mut self, sid: &str, name: Option<String>)
        requires
            old(self).wf(),
        ensures
            final(self).wf(),
            final(self).publishers == old(self).publishers,
            final(self).formats == old(self).formats,
            final(self).sids@ == crate::cache::stored(
                old(self).sids@,
                SID_CACHE_CAPACITY as nat,
                name_key(sid@),
                name,
            ),
    {
        self.sids.put(own_key(sid), name);
    }

    /// The number of publishers that an entry is kept for.
    pub fn publisher_len(&self) -> (n: usize)
        requires
            self.wf(),
        ensures
            n == self.publishers@.len(),
            n <= PUBLISHER_CACHE_CAPACITY,
    {
        proof {
            self.publishers.stays_bounded();
        }
        self.publishers.len()
    }

    /// The number of publishers that a table is kept for.
    pub fn format_len(&self) -> (n: usize)
        requires
            self.wf(),
        ensures
            n == self.formats@.len(),
            n <= FORMAT_CACHE_CAPACITY,
    {
        proof {
            self.formats.stays_bounded();
        }
        self.formats.len()
    }

    /// Forget everything.
    pub fn clear_all(&mut self)
        requires
            old(self).wf(),
        ensures
            final(self).wf(),
            final(self).publishers@.len() == 0,
            final(self).formats@.len() == 0,
            final(self).sids@.len() == 0,
    {
        self.publishers.clear();
        self.formats = FormatCache::with_capacity(FORMAT_CACHE_CAPACITY);
        self.sids.clear();
    }
}

/// An account is asked for once: the answer is remembered, whether it is a name
/// or that there is none.
pub proof fn account_answers_are_remembered(
    entries: Seq<((Seq<char>, u32), Option<String>)>,
    sid: Seq<char>,
    name: Option<String>,
)
    ensures
        crate::cache::value_of(
            crate::cache::stored(entries, SID_CACHE_CAPACITY as nat, name_key(sid), name),
            name_key(sid),
        ) == Some(name),
{
    crate::cache::stored_values_are_found(
        entries,
        SID_CACHE_CAPACITY as nat,
        name_key(sid),
        name,
    );
}

/// A publisher that was opened is used as it is, and one that could not be
/// opened is tried again only where that is asked for.
pub proof fn failed_opens_are_retried_only_on_request(entry: PublisherEntry, raw: i64)
    requires
        entry.attempted() == Some(raw),
    ensures
        raw != 0 ==> entry.usable(true) == Some(raw) && entry.usable(false) == Some(raw),
        raw == 0 ==> entry.usable(true) is None && entry.usable(false) == Some(0i64),
{
}

} // verus!
