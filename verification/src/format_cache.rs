//! Publisher display-name tables.
//!
//! A display name is determined by the publisher, the locale, the field and the
//! numeric value. The tables are filled only by enumerating a publisher's own
//! metadata. An answer that is read off an event's handle serves that event and
//! is never stored, so a value can never take the name of another value.

use std::collections::HashMap;

use vstd::prelude::*;

use crate::cache::BoundedCache;
use crate::text::{split_trimmed, to_ascii_lower};
use crate::time::{Span, Tick};

verus! {

/// The locale that publisher metadata is opened for: the system's default.
pub const SYSTEM_DEFAULT_LOCALE: u32 = 0;

/// The capacity of a cache that has no other.
pub const DEFAULT_FORMAT_CAPACITY: usize = 512;

/// A text that has characters, or nothing.
pub open spec fn non_empty(text: Option<String>) -> Option<Seq<char>> {
    match text {
        Some(t) => if t@.len() > 0 {
            Some(t@)
        } else {
            None
        },
        None => None,
    }
}

fn keep_non_empty(text: Option<String>) -> (kept: Option<String>)
    ensures
        crate::status::opt_chars(kept) == non_empty(text),
{
    match text {
        Some(t) => if t.as_str().is_empty() {
            None
        } else {
            Some(t)
        },
        None => None,
    }
}

/// Pick the display string of one row of a publisher's metadata.
///
/// A row without a message carries the all-ones message id; its symbolic name is
/// then the display string. Any other row is named by its formatted message, and
/// where that failed the row is left out: the symbolic name never stands in for
/// a message.
pub fn choose_table_display(
    message_id: u32,
    formatted: Option<String>,
    symbolic: Option<String>,
) -> (display: Option<String>)
    ensures
        crate::status::opt_chars(display) == if message_id != u32::MAX {
            non_empty(formatted)
        } else {
            non_empty(symbolic)
        },
{
    if message_id != u32::MAX {
        keep_non_empty(formatted)
    } else {
        keep_non_empty(symbolic)
    }
}

/// The names of one publisher in one locale.
#[derive(Debug, Clone, PartialEq, Eq)]
pub struct PublisherNames {
    pub tasks: HashMap<u16, String>,
    pub opcodes: HashMap<u8, String>,
    /// Keyword bit masks, in the order of enumeration.
    pub keywords: Vec<(u64, String)>,
    pub levels: HashMap<u8, String>,
}

impl Default for PublisherNames {
    fn default() -> (names: PublisherNames)
        ensures
            names.tasks@ == Map::<u16, String>::empty(),
            names.opcodes@ == Map::<u8, String>::empty(),
            names.keywords@ == Seq::<(u64, String)>::empty(),
            names.levels@ == Map::<u8, String>::empty(),
    {
        PublisherNames {
            tasks: HashMap::new(),
            opcodes: HashMap::new(),
            keywords: Vec::new(),
            levels: HashMap::new(),
        }
    }
}

/// A field whose values are numbers with one name each.
#[derive(Debug, Clone, Copy, PartialEq, Eq, Structural)]
pub enum NameField {
    Task,
    Opcode,
    Level,
}

/// The name that a table gives a value. A value wider than its field has none.
pub open spec fn table_scalar(names: PublisherNames, field: NameField, value: u64) -> Option<
    Seq<char>,
> {
    match field {
        NameField::Task => if value <= u16::MAX && names.tasks@.contains_key(value as u16) {
            Some(names.tasks@[value as u16]@)
        } else {
            None
        },
        NameField::Opcode => if value <= u8::MAX && names.opcodes@.contains_key(value as u8) {
            Some(names.opcodes@[value as u8]@)
        } else {
            None
        },
        NameField::Level => if value <= u8::MAX && names.levels@.contains_key(value as u8) {
            Some(names.levels@[value as u8]@)
        } else {
            None
        },
    }
}

/// Whether a table has a row for exactly this value, with this name.
pub open spec fn has_row(
    names: PublisherNames,
    field: NameField,
    value: u64,
    name: Seq<char>,
) -> bool {
    match field {
        NameField::Task => exists|task: u16|
            task == value && #[trigger] names.tasks@.contains_key(task) && names.tasks@[task]@
                == name,
        NameField::Opcode => exists|opcode: u8|
            opcode == value && #[trigger] names.opcodes@.contains_key(opcode)
                && names.opcodes@[opcode]@ == name,
        NameField::Level => exists|level: u8|
            level == value && #[trigger] names.levels@.contains_key(level)
                && names.levels@[level]@ == name,
    }
}

/// Whether a keyword is set in a mask: all of its bits are, and it has any.
pub open spec fn keyword_set(bit: u64, mask: u64) -> bool {
    bit != 0 && mask & bit == bit
}

/// The names of the keywords that are set in a mask, in table order.
pub open spec fn keywords_in(keywords: Seq<(u64, String)>, mask: u64) -> Seq<Seq<char>>
    decreases keywords.len(),
{
    if keywords.len() == 0 {
        Seq::empty()
    } else {
        let before = keywords_in(keywords.drop_last(), mask);
        if keyword_set(keywords.last().0, mask) {
            before.push(keywords.last().1@)
        } else {
            before
        }
    }
}

/// The outcome of looking one name up. `hit` tells that the table had it,
/// `table_miss` that it had not and the fallback was asked. Neither holds where
/// the publisher cannot be opened.
#[derive(Debug, PartialEq, Eq)]
pub struct Lookup {
    pub name: Option<String>,
    pub hit: bool,
    pub table_miss: bool,
}

/// The outcome of looking keyword names up.
#[derive(Debug, PartialEq, Eq)]
pub struct KeywordLookup {
    pub names: Vec<String>,
    pub hit: bool,
    pub table_miss: bool,
}

/// What is known of a publisher.
#[allow(inconsistent_fields)]
#[derive(Debug)]
pub enum Entry {
    Ready { names: PublisherNames, enumerated_at: Tick },
    /// Its metadata could not be opened.
    Unopenable { at: Tick },
}

/// What has to be done before a lookup.
#[derive(Debug, Clone, Copy, PartialEq, Eq, Structural)]
pub enum Prepare {
    /// The table is there and fresh enough.
    Ready,
    /// It is absent or stale.
    NeedEnumerate,
    /// The publisher could not be opened a short while ago.
    Unopenable,
}

/// Whether what was learned at a time has had its day.
pub open spec fn is_stale(at: Tick, now: Tick, refresh: nat) -> bool {
    refresh <= if now.nanos >= at.nanos {
        now.nanos - at.nanos
    } else {
        0
    }
}

/// Whether what was learned at a time has had its day.
pub fn stale(at: Tick, now: Tick, refresh: Span) -> (stale: bool)
    ensures
        stale == is_stale(at, now, refresh@),
{
    now.since(at).as_nanos() >= refresh.as_nanos()
}

/// The key of a publisher's table: its name in lower case, and the locale.
pub open spec fn table_key(publisher: Seq<char>, locale: u32) -> (Seq<char>, u32) {
    (crate::text::ascii_lower(publisher), locale)
}

/// The key of a publisher's table.
pub fn cache_key(publisher: &str, locale: u32) -> (key: (String, u32))
    ensures
        (key.0@, key.1) == table_key(publisher@, locale),
{
    (to_ascii_lower(publisher), locale)
}

/// What has to be done before a lookup, given what is known of the publisher.
pub open spec fn prepared(known: Option<Entry>, now: Tick, refresh: nat) -> Prepare {
    match known {
        Some(Entry::Ready { enumerated_at, .. }) => if is_stale(enumerated_at, now, refresh) {
            Prepare::NeedEnumerate
        } else {
            Prepare::Ready
        },
        Some(Entry::Unopenable { at }) => if is_stale(at, now, refresh) {
            Prepare::NeedEnumerate
        } else {
            Prepare::Unopenable
        },
        None => Prepare::NeedEnumerate,
    }
}

/// The name of a value, given what is known of the publisher.
pub open spec fn known_scalar(known: Option<Entry>, field: NameField, value: u64) -> Option<
    Seq<char>,
> {
    match known {
        Some(Entry::Ready { names, .. }) => table_scalar(names, field, value),
        _ => None,
    }
}

/// The names of a mask's keywords, given what is known of the publisher.
pub open spec fn known_keywords(known: Option<Entry>, mask: u64) -> Option<Seq<Seq<char>>> {
    match known {
        Some(Entry::Ready { names, .. }) => Some(keywords_in(names.keywords@, mask)),
        _ => None,
    }
}

/// What enumerating a publisher says of it.
pub open spec fn enumerated(answer: Option<PublisherNames>, now: Tick) -> Entry {
    match answer {
        Some(names) => Entry::Ready { names, enumerated_at: now },
        None => Entry::Unopenable { at: now },
    }
}

/// The entries once a table has been asked for: one that is absent or stale is
/// enumerated, and the answer is stored.
pub open spec fn ensured(
    entries: Seq<((Seq<char>, u32), Entry)>,
    capacity: nat,
    key: (Seq<char>, u32),
    now: Tick,
    refresh: nat,
    answer: Option<PublisherNames>,
) -> Seq<((Seq<char>, u32), Entry)> {
    let asked = crate::cache::touched(entries, key);
    if prepared(crate::cache::value_of(entries, key), now, refresh) == Prepare::NeedEnumerate {
        crate::cache::stored(asked, capacity, key, enumerated(answer, now))
    } else {
        asked
    }
}

/// Whether there is a table once it has been asked for.
pub open spec fn has_table(
    known: Option<Entry>,
    now: Tick,
    refresh: nat,
    answer: Option<PublisherNames>,
) -> bool {
    match prepared(known, now, refresh) {
        Prepare::Ready => true,
        Prepare::Unopenable => false,
        Prepare::NeedEnumerate => answer is Some,
    }
}

/// The tables of many publishers, bounded in number.
pub struct FormatCache {
    entries: BoundedCache<Entry>,
}

impl View for FormatCache {
    type V = Seq<((Seq<char>, u32), Entry)>;

    /// What is known of each publisher, most recently used first.
    closed spec fn view(&self) -> Seq<((Seq<char>, u32), Entry)> {
        self.entries@
    }
}

impl FormatCache {
    pub closed spec fn wf(self) -> bool {
        self.entries.wf()
    }

    /// The number of tables that there is room for.
    pub closed spec fn limit(self) -> nat {
        self.entries.limit()
    }

    /// What is known of a publisher.
    pub open spec fn known(self, publisher: Seq<char>, locale: u32) -> Option<Entry> {
        crate::cache::value_of(self@, table_key(publisher, locale))
    }

    /// The number of tables stays within its limit, and no publisher has two.
    pub proof fn stays_bounded(self)
        requires
            self.wf(),
        ensures
            self@.len() <= self.limit(),
            0 < self.limit(),
            crate::cache::keys_differ(self@),
    {
        self.entries.stays_bounded();
    }

    /// An empty cache.
    pub fn new() -> (cache: FormatCache)
        ensures
            cache.wf(),
            cache@ == Seq::<((Seq<char>, u32), Entry)>::empty(),
            cache.limit() == DEFAULT_FORMAT_CAPACITY,
    {
        FormatCache::with_capacity(DEFAULT_FORMAT_CAPACITY)
    }

    /// An empty cache with room for `capacity` tables.
    pub fn with_capacity(capacity: usize) -> (cache: FormatCache)
        requires
            0 < capacity,
        ensures
            cache.wf(),
            cache@ == Seq::<((Seq<char>, u32), Entry)>::empty(),
            cache.limit() == capacity,
    {
        FormatCache { entries: BoundedCache::with_capacity(capacity) }
    }

    /// The number of publishers that something is known of.
    pub fn len(&self) -> (n: usize)
        requires
            self.wf(),
        ensures
            n == self@.len(),
    {
        self.entries.len()
    }

    /// What has to be done before a publisher's names are looked up.
    pub fn prepare(&mut self, publisher: &str, locale: u32, now: Tick, refresh: Span) -> (prepare:
        Prepare)
        requires
            old(self).wf(),
        ensures
            final(self).wf(),
            final(self).limit() == old(self).limit(),
            final(self)@ == crate::cache::touched(old(self)@, table_key(publisher@, locale)),
            prepare == prepared(old(self).known(publisher@, locale), now, refresh@),
    {
        match self.entries.get(&cache_key(publisher, locale)) {
            Some(Entry::Ready { enumerated_at, .. }) => {
                if stale(*enumerated_at, now, refresh) {
                    Prepare::NeedEnumerate
                } else {
                    Prepare::Ready
                }
            },
            Some(Entry::Unopenable { at }) => {
                if stale(*at, now, refresh) {
                    Prepare::NeedEnumerate
                } else {
                    Prepare::Unopenable
                }
            },
            None => Prepare::NeedEnumerate,
        }
    }

    /// Store a table that was just enumerated.
    pub fn store_table(&mut self, publisher: &str, locale: u32, now: Tick, names: PublisherNames)
        requires
            old(self).wf(),
        ensures
            final(self).wf(),
            final(self).limit() == old(self).limit(),
            final(self)@ == crate::cache::stored(
                old(self)@,
                old(self).limit(),
                table_key(publisher@, locale),
                Entry::Ready { names, enumerated_at: now },
            ),
    {
        self.entries.put(
            cache_key(publisher, locale),
            Entry::Ready { names, enumerated_at: now },
        );
    }

    /// Record that a publisher could not be opened.
    pub fn store_unopenable(&mut self, publisher: &str, locale: u32, now: Tick)
        requires
            old(self).wf(),
        ensures
            final(self).wf(),
            final(self).limit() == old(self).limit(),
            final(self)@ == crate::cache::stored(
                old(self)@,
                old(self).limit(),
                table_key(publisher@, locale),
                Entry::Unopenable { at: now },
            ),
    {
        self.entries.put(cache_key(publisher, locale), Entry::Unopenable { at: now });
    }

    /// The name that the table gives a value.
    pub fn get_scalar(&mut self, publisher: &str, locale: u32, field: NameField, value: u64) -> (
        name: Option<String>)
        requires
            old(self).wf(),
        ensures
            final(self).wf(),
            final(self).limit() == old(self).limit(),
            final(self)@ == crate::cache::touched(old(self)@, table_key(publisher@, locale)),
            crate::status::opt_chars(name) == known_scalar(
                old(self).known(publisher@, locale),
                field,
                value,
            ),
    {
        match self.entries.get(&cache_key(publisher, locale)) {
            Some(Entry::Ready { names, .. }) => FormatCache::scalar_from_table(
                names,
                field,
                value,
            ),
            _ => None,
        }
    }

    /// The names of the keywords in a mask, in table order.
    pub fn get_keywords(&mut self, publisher: &str, locale: u32, mask: u64) -> (names: Option<
        Vec<String>,
    >)
        requires
            old(self).wf(),
        ensures
            final(self).wf(),
            final(self).limit() == old(self).limit(),
            final(self)@ == crate::cache::touched(old(self)@, table_key(publisher@, locale)),
            match names {
                Some(list) => Some(crate::text::texts(list@)) == known_keywords(
                    old(self).known(publisher@, locale),
                    mask,
                ),
                None => known_keywords(old(self).known(publisher@, locale), mask) is None,
            },
    {
        match self.entries.get(&cache_key(publisher, locale)) {
            Some(Entry::Ready { names, .. }) => Some(
                FormatCache::keywords_from_table(&names.keywords, mask),
            ),
            _ => None,
        }
    }

    fn scalar_from_table(names: &PublisherNames, field: NameField, value: u64) -> (name: Option<
        String,
    >)
        ensures
            crate::status::opt_chars(name) == table_scalar(*names, field, value),
    {
        broadcast use vstd::std_specs::hash::group_hash_axioms;

        let widest: u64 = match field {
            NameField::Task => 0xFFFF,
            NameField::Opcode | NameField::Level => 0xFF,
        };
        if value > widest {
            return None;
        }
        let found: Option<&String> = match field {
            NameField::Task => names.tasks.get(&(value as u16)),
            NameField::Opcode => names.opcodes.get(&(value as u8)),
            NameField::Level => names.levels.get(&(value as u8)),
        };
        match found {
            Some(name) => Some(name.clone()),
            None => None,
        }
    }

    fn keywords_from_table(keywords: &Vec<(u64, String)>, mask: u64) -> (names: Vec<String>)
        ensures
            crate::text::texts(names@) == keywords_in(keywords@, mask),
    {
        let mut names: Vec<String> = Vec::new();
        let mut i: usize = 0;
        assert(crate::text::texts(names@) =~= keywords_in(keywords@.take(0), mask));
        while i < keywords.len()
            invariant
                i <= keywords@.len(),
                crate::text::texts(names@) == keywords_in(keywords@.take(i as int), mask),
            decreases keywords.len() - i,
        {
            let ghost next = keywords@.take(i + 1);
            assert(next.drop_last() =~= keywords@.take(i as int));
            let ghost before = names@;
            let bit: u64 = keywords[i].0;
            if bit != 0 && mask & bit == bit {
                names.push(keywords[i].1.clone());
            }
            assert(crate::text::texts(names@) =~= keywords_in(next, mask)) by {
                assert(next.last() == keywords@[i as int]);
                if keyword_set(bit, mask) {
                    assert(crate::text::texts(names@) =~= crate::text::texts(before).push(
                        keywords@[i as int].1@,
                    ));
                }
            }
            i += 1;
        }
        assert(keywords@.take(i as int) =~= keywords@);
        names
    }
}

/// The outcome of a lookup, given what is known of the publisher once its table
/// has been asked for, and the fallback's answer.
pub open spec fn looked_up(
    table: bool,
    known: Option<Entry>,
    field: NameField,
    value: u64,
    spare: Option<String>,
) -> (Option<Seq<char>>, bool, bool) {
    if !table {
        (None, false, false)
    } else {
        match known_scalar(known, field, value) {
            Some(name) => (Some(name), true, false),
            None => (crate::status::opt_chars(spare), false, true),
        }
    }
}

/// Whether the fallback is asked for a mask's keywords: the table has none of
/// them, and there are any.
pub open spec fn keywords_missing(names: Seq<Seq<char>>, mask: u64) -> bool {
    names.len() == 0 && mask != 0
}

/// The names in a fallback's answer, which separates them by semicolons.
pub open spec fn keyword_answer(answer: Option<String>) -> Seq<Seq<char>> {
    match answer {
        Some(text) => crate::text::trimmed_parts(crate::text::split(text@, ';')),
        None => Seq::empty(),
    }
}

/// The names in a fallback's answer, which separates them by semicolons.
pub fn split_keywords(answer: Option<String>) -> (names: Vec<String>)
    ensures
        crate::text::texts(names@) == keyword_answer(answer),
{
    match answer {
        Some(text) => split_trimmed(text.as_str(), ';'),
        None => {
            let names: Vec<String> = Vec::new();
            assert(crate::text::texts(names@) =~= Seq::<Seq<char>>::empty());
            names
        },
    }
}

/// The outcome of a keyword lookup.
pub open spec fn keywords_looked_up(
    table: bool,
    known: Option<Entry>,
    mask: u64,
    spare: Option<String>,
) -> (Seq<Seq<char>>, bool, bool) {
    if !table {
        (Seq::empty(), false, false)
    } else {
        match known_keywords(known, mask) {
            Some(names) => if keywords_missing(names, mask) {
                (keyword_answer(spare), false, true)
            } else {
                (names, true, false)
            },
            None => (keyword_answer(spare), false, true),
        }
    }
}

/// Whether a table was asked for with this outcome, where `answer` is what an
/// enumeration says.
pub open spec fn is_ensured(
    before: Seq<((Seq<char>, u32), Entry)>,
    capacity: nat,
    key: (Seq<char>, u32),
    now: Tick,
    refresh: nat,
    after: Seq<((Seq<char>, u32), Entry)>,
    table: bool,
    answer: Option<PublisherNames>,
) -> bool {
    &&& after == ensured(before, capacity, key, now, refresh, answer)
    &&& table == has_table(crate::cache::value_of(before, key), now, refresh, answer)
}

/// The table that a lookup reads: the one that is known while it is fresh, else
/// what an enumeration gives. A publisher left alone until the refresh has none.
pub open spec fn table_read(
    known: Option<Entry>,
    now: Tick,
    refresh: nat,
    answer: Option<PublisherNames>,
) -> Option<PublisherNames> {
    match (prepared(known, now, refresh), known) {
        (Prepare::NeedEnumerate, _) => answer,
        (Prepare::Ready, Some(Entry::Ready { names, .. })) => Some(names),
        _ => None,
    }
}

/// Whether a lookup asks the fallback: the table is there without the value.
pub open spec fn asks_fallback(
    known: Option<Entry>,
    now: Tick,
    refresh: nat,
    field: NameField,
    value: u64,
    answer: Option<PublisherNames>,
) -> bool {
    table_read(known, now, refresh, answer) matches Some(names) && table_scalar(
        names,
        field,
        value,
    ) is None
}

/// Whether a keyword lookup asks the fallback: the table is there and has nothing
/// of the mask.
pub open spec fn asks_keyword_fallback(
    known: Option<Entry>,
    now: Tick,
    refresh: nat,
    mask: u64,
    answer: Option<PublisherNames>,
) -> bool {
    table_read(known, now, refresh, answer) matches Some(names) && keywords_missing(
        keywords_in(names.keywords@, mask),
        mask,
    )
}

/// Whether a name was looked up with this outcome, where `answer` is what an
/// enumeration says and `spare` what the fallback says.
pub open spec fn is_lookup(
    before: Seq<((Seq<char>, u32), Entry)>,
    capacity: nat,
    key: (Seq<char>, u32),
    now: Tick,
    refresh: nat,
    field: NameField,
    value: u64,
    after: Seq<((Seq<char>, u32), Entry)>,
    lookup: Lookup,
    answer: Option<PublisherNames>,
    spare: Option<String>,
) -> bool {
    let asked = ensured(before, capacity, key, now, refresh, answer);
    let table = has_table(crate::cache::value_of(before, key), now, refresh, answer);
    &&& after == if table {
        crate::cache::touched(asked, key)
    } else {
        asked
    }
    &&& (crate::status::opt_chars(lookup.name), lookup.hit, lookup.table_miss) == looked_up(
        table,
        crate::cache::value_of(asked, key),
        field,
        value,
        spare,
    )
}

/// Whether keywords were looked up with this outcome, where `answer` is what an
/// enumeration says and `spare` what the fallback says.
pub open spec fn is_keyword_lookup(
    before: Seq<((Seq<char>, u32), Entry)>,
    capacity: nat,
    key: (Seq<char>, u32),
    now: Tick,
    refresh: nat,
    mask: u64,
    after: Seq<((Seq<char>, u32), Entry)>,
    lookup: KeywordLookup,
    answer: Option<PublisherNames>,
    spare: Option<String>,
) -> bool {
    let asked = ensured(before, capacity, key, now, refresh, answer);
    let table = has_table(crate::cache::value_of(before, key), now, refresh, answer);
    &&& after == if table {
        crate::cache::touched(asked, key)
    } else {
        asked
    }
    &&& (crate::text::texts(lookup.names@), lookup.hit, lookup.table_miss) == keywords_looked_up(
        table,
        crate::cache::value_of(asked, key),
        mask,
        spare,
    )
}

impl FormatCache {
    /// Make sure that a publisher's table is there, enumerating it where it is
    /// absent or stale. Tells whether it is.
    fn ensure_table<E>(&mut self, key: &(String, u32), now: Tick, refresh: Span, enumerate: E) -> (
        table: bool) where E: FnOnce() -> Option<PublisherNames>
        requires
            old(self).wf(),
            prepared(crate::cache::value_of(old(self)@, (key.0@, key.1)), now, refresh@)
                == Prepare::NeedEnumerate ==> enumerate.requires(()),
        ensures
            final(self).wf(),
            final(self).limit() == old(self).limit(),
            exists|answer: Option<PublisherNames>|
                (prepared(
                    crate::cache::value_of(old(self)@, (key.0@, key.1)),
                    now,
                    refresh@,
                ) == Prepare::NeedEnumerate ==> enumerate.ensures((), answer))
                    && #[trigger] is_ensured(
                    old(self)@,
                    old(self).limit(),
                    (key.0@, key.1),
                    now,
                    refresh@,
                    final(self)@,
                    table,
                    answer,
                ),
    {
        let ghost name = (key.0@, key.1);
        let ghost start = self@;
        let ghost room = self.limit();
        let ghost known = crate::cache::value_of(start, name);
        let ghost mut given: Option<PublisherNames> = None;
        let prepare = match self.entries.get(key) {
            Some(Entry::Ready { enumerated_at, .. }) => {
                if stale(*enumerated_at, now, refresh) {
                    Prepare::NeedEnumerate
                } else {
                    Prepare::Ready
                }
            },
            Some(Entry::Unopenable { at }) => {
                if stale(*at, now, refresh) {
                    Prepare::NeedEnumerate
                } else {
                    Prepare::Unopenable
                }
            },
            None => Prepare::NeedEnumerate,
        };
        let table = match prepare {
            Prepare::Ready => true,
            Prepare::Unopenable => false,
            Prepare::NeedEnumerate => {
                let answer: Option<PublisherNames> = enumerate();
                proof {
                    given = answer;
                }
                let owned: (String, u32) = (key.0.clone(), key.1);
                match answer {
                    Some(names) => {
                        self.entries.put(owned, Entry::Ready { names, enumerated_at: now });
                        true
                    },
                    None => {
                        self.entries.put(owned, Entry::Unopenable { at: now });
                        false
                    },
                }
            },
        };
        assert(prepare == prepared(known, now, refresh@));
        assert(is_ensured(start, room, name, now, refresh@, self@, table, given));
        table
    }

    /// Look one name up. `enumerate` is called only where the table is absent or
    /// stale; `fallback` only where the table is there without the value. The
    /// fallback's answer is returned and never stored.
    pub fn lookup<E, F>(
        &mut self,
        publisher: &str,
        locale: u32,
        field: NameField,
        value: u64,
        now: Tick,
        refresh: Span,
        enumerate: E,
        fallback: F,
    ) -> (lookup: Lookup) where
        E: FnOnce() -> Option<PublisherNames>,
        F: FnOnce() -> Option<String>,

        requires
            old(self).wf(),
            prepared(old(self).known(publisher@, locale), now, refresh@)
                == Prepare::NeedEnumerate ==> enumerate.requires(()),
            forall|answer: Option<PublisherNames>|
                (prepared(old(self).known(publisher@, locale), now, refresh@)
                    == Prepare::NeedEnumerate ==> enumerate.ensures((), answer))
                    && #[trigger] asks_fallback(
                    old(self).known(publisher@, locale),
                    now,
                    refresh@,
                    field,
                    value,
                    answer,
                ) ==> fallback.requires(()),
        ensures
            final(self).wf(),
            final(self).limit() == old(self).limit(),
            exists|answer: Option<PublisherNames>, spare: Option<String>|
                (prepared(old(self).known(publisher@, locale), now, refresh@)
                    == Prepare::NeedEnumerate ==> enumerate.ensures((), answer))
                    && (lookup.table_miss ==> fallback.ensures((), spare)) && #[trigger] is_lookup(
                    old(self)@,
                    old(self).limit(),
                    table_key(publisher@, locale),
                    now,
                    refresh@,
                    field,
                    value,
                    final(self)@,
                    lookup,
                    answer,
                    spare,
                ),
    {
        let key = cache_key(publisher, locale);
        let ghost name = (key.0@, key.1);
        let ghost start = self@;
        let ghost known = crate::cache::value_of(start, name);
        proof {
            self.entries.stays_bounded();
        }
        let table = self.ensure_table(&key, now, refresh, enumerate);
        let ghost after = self@;
        let ghost answer = choose|answer: Option<PublisherNames>|
            (prepared(known, now, refresh@) == Prepare::NeedEnumerate ==> enumerate.ensures(
                (),
                answer,
            )) && #[trigger] is_ensured(
                start,
                self.limit(),
                name,
                now,
                refresh@,
                after,
                table,
                answer,
            );
        let ghost none: Option<String> = None;
        if !table {
            let lookup = Lookup { name: None, hit: false, table_miss: false };
            assert(is_lookup(
                start,
                self.limit(),
                name,
                now,
                refresh@,
                field,
                value,
                self@,
                lookup,
                answer,
                none,
            ));
            return lookup;
        }
        let found = match self.entries.get(&key) {
            Some(Entry::Ready { names, .. }) => FormatCache::scalar_from_table(
                names,
                field,
                value,
            ),
            _ => None,
        };
        if found.is_some() {
            let lookup = Lookup { name: found, hit: true, table_miss: false };
            assert(is_lookup(
                start,
                self.limit(),
                name,
                now,
                refresh@,
                field,
                value,
                self@,
                lookup,
                answer,
                none,
            ));
            return lookup;
        }
        proof {
            lookups_store_only_enumerations(start, self.limit(), name, name, now, refresh@, answer);
            assert(asks_fallback(known, now, refresh@, field, value, answer));
        }
        let spare: Option<String> = fallback();
        let ghost given = spare;
        let lookup = Lookup { name: spare, hit: false, table_miss: true };
        assert(is_lookup(
            start,
            self.limit(),
            name,
            now,
            refresh@,
            field,
            value,
            self@,
            lookup,
            answer,
            given,
        ));
        lookup
    }

    /// Look the keyword names of a mask up. Names come from the table in its
    /// order; a mask of which the table has nothing asks `fallback`, whose
    /// answer is returned and never stored.
    pub fn lookup_keywords<E, F>(
        &mut self,
        publisher: &str,
        locale: u32,
        mask: u64,
        now: Tick,
        refresh: Span,
        enumerate: E,
        fallback: F,
    ) -> (lookup: KeywordLookup) where
        E: FnOnce() -> Option<PublisherNames>,
        F: FnOnce() -> Option<String>,

        requires
            old(self).wf(),
            prepared(old(self).known(publisher@, locale), now, refresh@)
                == Prepare::NeedEnumerate ==> enumerate.requires(()),
            forall|answer: Option<PublisherNames>|
                (prepared(old(self).known(publisher@, locale), now, refresh@)
                    == Prepare::NeedEnumerate ==> enumerate.ensures((), answer))
                    && #[trigger] asks_keyword_fallback(
                    old(self).known(publisher@, locale),
                    now,
                    refresh@,
                    mask,
                    answer,
                ) ==> fallback.requires(()),
        ensures
            final(self).wf(),
            final(self).limit() == old(self).limit(),
            exists|answer: Option<PublisherNames>, spare: Option<String>|
                (prepared(old(self).known(publisher@, locale), now, refresh@)
                    == Prepare::NeedEnumerate ==> enumerate.ensures((), answer))
                    && (lookup.table_miss ==> fallback.ensures((), spare)) && #[trigger] is_keyword_lookup(
                    old(self)@,
                    old(self).limit(),
                    table_key(publisher@, locale),
                    now,
                    refresh@,
                    mask,
                    final(self)@,
                    lookup,
                    answer,
                    spare,
                ),
    {
        let key = cache_key(publisher, locale);
        let ghost name = (key.0@, key.1);
        let ghost start = self@;
        let ghost known = crate::cache::value_of(start, name);
        proof {
            self.entries.stays_bounded();
        }
        let table = self.ensure_table(&key, now, refresh, enumerate);
        let ghost after = self@;
        let ghost answer = choose|answer: Option<PublisherNames>|
            (prepared(known, now, refresh@) == Prepare::NeedEnumerate ==> enumerate.ensures(
                (),
                answer,
            )) && #[trigger] is_ensured(
                start,
                self.limit(),
                name,
                now,
                refresh@,
                after,
                table,
                answer,
            );
        let ghost none: Option<String> = None;
        if !table {
            let names: Vec<String> = Vec::new();
            assert(crate::text::texts(names@) =~= Seq::<Seq<char>>::empty());
            let lookup = KeywordLookup { names, hit: false, table_miss: false };
            assert(is_keyword_lookup(
                start,
                self.limit(),
                name,
                now,
                refresh@,
                mask,
                self@,
                lookup,
                answer,
                none,
            ));
            return lookup;
        }
        let found: Option<Vec<String>> = match self.entries.get(&key) {
            Some(Entry::Ready { names, .. }) => Some(
                FormatCache::keywords_from_table(&names.keywords, mask),
            ),
            _ => None,
        };
        if let Some(names) = found {
            if names.len() > 0 || mask == 0 {
                let lookup = KeywordLookup { names, hit: true, table_miss: false };
                assert(is_keyword_lookup(
                    start,
                    self.limit(),
                    name,
                    now,
                    refresh@,
                    mask,
                    self@,
                    lookup,
                    answer,
                    none,
                ));
                return lookup;
            }
        }
        proof {
            lookups_store_only_enumerations(start, self.limit(), name, name, now, refresh@, answer);
            assert(asks_keyword_fallback(known, now, refresh@, mask, answer));
        }
        let spare: Option<String> = fallback();
        let ghost given = spare;
        let names = split_keywords(spare);
        let lookup = KeywordLookup { names, hit: false, table_miss: true };
        assert(is_keyword_lookup(
            start,
            self.limit(),
            name,
            now,
            refresh@,
            mask,
            self@,
            lookup,
            answer,
            given,
        ));
        lookup
    }
}

// ---------------------------------------------------------------------------
// Laws
// ---------------------------------------------------------------------------
/// A name that a table gives a value is that of the row for exactly this value,
/// and every row names its own value.
pub proof fn names_belong_to_their_own_values(
    names: PublisherNames,
    field: NameField,
    value: u64,
    name: Seq<char>,
)
    ensures
        table_scalar(names, field, value) == Some(name) <==> has_row(names, field, value, name),
{
}

/// A stored table serves every spelling of its publisher's name in that locale,
/// and nothing has to be enumerated again until it is stale.
pub proof fn stored_tables_serve_every_spelling(
    entries: Seq<((Seq<char>, u32), Entry)>,
    capacity: nat,
    publisher: Seq<char>,
    spelling: Seq<char>,
    locale: u32,
    at: Tick,
    now: Tick,
    refresh: nat,
    names: PublisherNames,
    field: NameField,
    value: u64,
)
    requires
        crate::text::ascii_lower(publisher) == crate::text::ascii_lower(spelling),
    ensures
        ({
            let known = crate::cache::value_of(
                crate::cache::stored(
                    entries,
                    capacity,
                    table_key(publisher, locale),
                    Entry::Ready { names, enumerated_at: at },
                ),
                table_key(spelling, locale),
            );
            &&& known_scalar(known, field, value) == table_scalar(names, field, value)
            &&& !is_stale(at, now, refresh) ==> prepared(known, now, refresh) == Prepare::Ready
            &&& is_stale(at, now, refresh) ==> prepared(known, now, refresh)
                == Prepare::NeedEnumerate
        }),
{
    crate::cache::stored_values_are_found(
        entries,
        capacity,
        table_key(publisher, locale),
        Entry::Ready { names, enumerated_at: at },
    );
}

/// A publisher that could not be opened is left alone until the refresh, and has
/// no names meanwhile.
pub proof fn unopenable_publishers_wait_for_the_refresh(
    entries: Seq<((Seq<char>, u32), Entry)>,
    capacity: nat,
    publisher: Seq<char>,
    locale: u32,
    at: Tick,
    now: Tick,
    refresh: nat,
    field: NameField,
    value: u64,
)
    ensures
        ({
            let known = crate::cache::value_of(
                crate::cache::stored(
                    entries,
                    capacity,
                    table_key(publisher, locale),
                    Entry::Unopenable { at },
                ),
                table_key(publisher, locale),
            );
            &&& known_scalar(known, field, value) is None
            &&& prepared(known, now, refresh) == if is_stale(at, now, refresh) {
                Prepare::NeedEnumerate
            } else {
                Prepare::Unopenable
            }
        }),
{
    crate::cache::stored_values_are_found(
        entries,
        capacity,
        table_key(publisher, locale),
        Entry::Unopenable { at },
    );
}

/// A table is enumerated once and serves until it is stale: a second lookup of the
/// same value, under any spelling of the publisher's name, enumerates nothing. A
/// value that the table does not have is asked of each lookup's own fallback.
/// `later` is the cache as the second finds it.
pub proof fn fresh_tables_are_not_enumerated_again(
    before: Seq<((Seq<char>, u32), Entry)>,
    capacity: nat,
    publishers: (Seq<char>, Seq<char>),
    locale: u32,
    times: (Tick, Tick),
    refresh: nat,
    field: NameField,
    value: u64,
    names: PublisherNames,
    answer: Option<PublisherNames>,
    between: Seq<((Seq<char>, u32), Entry)>,
    later: Seq<((Seq<char>, u32), Entry)>,
    after: Seq<((Seq<char>, u32), Entry)>,
    lookups: (Lookup, Lookup),
    spares: (Option<String>, Option<String>),
)
    requires
        crate::cache::keys_differ(before),
        0 < capacity,
        before.len() <= capacity,
        crate::text::ascii_lower(publishers.0) == crate::text::ascii_lower(publishers.1),
        !is_stale(times.0, times.1, refresh),
        prepared(
            crate::cache::value_of(before, table_key(publishers.0, locale)),
            times.0,
            refresh,
        ) == Prepare::NeedEnumerate,
        is_lookup(
            before,
            capacity,
            table_key(publishers.0, locale),
            times.0,
            refresh,
            field,
            value,
            between,
            lookups.0,
            Some(names),
            spares.0,
        ),
        crate::cache::value_of(later, table_key(publishers.0, locale)) == crate::cache::value_of(
            between,
            table_key(publishers.0, locale),
        ),
        crate::cache::keys_differ(later),
        later.len() <= capacity,
        is_lookup(
            later,
            capacity,
            table_key(publishers.1, locale),
            times.1,
            refresh,
            field,
            value,
            after,
            lookups.1,
            answer,
            spares.1,
        ),
    ensures
        prepared(
            crate::cache::value_of(later, table_key(publishers.1, locale)),
            times.1,
            refresh,
        ) == Prepare::Ready,
        match table_scalar(names, field, value) {
            Some(name) => {
                &&& crate::status::opt_chars(lookups.0.name) == Some(name)
                &&& crate::status::opt_chars(lookups.1.name) == Some(name)
                &&& lookups.0.hit && !lookups.0.table_miss
                &&& lookups.1.hit && !lookups.1.table_miss
            },
            None => {
                &&& crate::status::opt_chars(lookups.0.name) == crate::status::opt_chars(spares.0)
                &&& crate::status::opt_chars(lookups.1.name) == crate::status::opt_chars(spares.1)
                &&& !lookups.0.hit && lookups.0.table_miss
                &&& !lookups.1.hit && lookups.1.table_miss
            },
        },
{
    let key = table_key(publishers.0, locale);
    lookups_store_only_enumerations(before, capacity, key, key, times.0, refresh, Some(names));
    let touched = crate::cache::touched(before, key);
    let entry = enumerated(Some(names), times.0);
    crate::cache::stored_values_are_found(touched, capacity, key, entry);
    crate::cache::the_front_stays_in_front(touched, capacity, key, entry);
    lookups_store_only_enumerations(later, capacity, key, key, times.1, refresh, answer);
}

/// Keywords too are looked up in a table that is enumerated once: a second lookup
/// of any mask before the table is stale enumerates nothing, and each lookup asks
/// its own fallback, where the table has nothing of its mask, and otherwise none.
/// `later` is the cache as the second finds it.
pub proof fn fresh_keyword_tables_are_not_enumerated_again(
    before: Seq<((Seq<char>, u32), Entry)>,
    capacity: nat,
    publishers: (Seq<char>, Seq<char>),
    locale: u32,
    times: (Tick, Tick),
    refresh: nat,
    masks: (u64, u64),
    names: PublisherNames,
    answer: Option<PublisherNames>,
    between: Seq<((Seq<char>, u32), Entry)>,
    later: Seq<((Seq<char>, u32), Entry)>,
    after: Seq<((Seq<char>, u32), Entry)>,
    lookups: (KeywordLookup, KeywordLookup),
    spares: (Option<String>, Option<String>),
)
    requires
        crate::cache::keys_differ(before),
        0 < capacity,
        before.len() <= capacity,
        crate::text::ascii_lower(publishers.0) == crate::text::ascii_lower(publishers.1),
        !is_stale(times.0, times.1, refresh),
        prepared(
            crate::cache::value_of(before, table_key(publishers.0, locale)),
            times.0,
            refresh,
        ) == Prepare::NeedEnumerate,
        is_keyword_lookup(
            before,
            capacity,
            table_key(publishers.0, locale),
            times.0,
            refresh,
            masks.0,
            between,
            lookups.0,
            Some(names),
            spares.0,
        ),
        crate::cache::value_of(later, table_key(publishers.0, locale)) == crate::cache::value_of(
            between,
            table_key(publishers.0, locale),
        ),
        crate::cache::keys_differ(later),
        later.len() <= capacity,
        is_keyword_lookup(
            later,
            capacity,
            table_key(publishers.1, locale),
            times.1,
            refresh,
            masks.1,
            after,
            lookups.1,
            answer,
            spares.1,
        ),
    ensures
        prepared(
            crate::cache::value_of(later, table_key(publishers.1, locale)),
            times.1,
            refresh,
        ) == Prepare::Ready,
        serves_keywords(lookups.0, names, masks.0, spares.0),
        serves_keywords(lookups.1, names, masks.1, spares.1),
{
    let key = table_key(publishers.0, locale);
    lookups_store_only_enumerations(before, capacity, key, key, times.0, refresh, Some(names));
    let touched = crate::cache::touched(before, key);
    let entry = enumerated(Some(names), times.0);
    crate::cache::stored_values_are_found(touched, capacity, key, entry);
    crate::cache::the_front_stays_in_front(touched, capacity, key, entry);
    lookups_store_only_enumerations(later, capacity, key, key, times.1, refresh, answer);
}

/// Whether a keyword lookup says what a table has of a mask, and what the fallback
/// says where it has nothing.
pub open spec fn serves_keywords(
    lookup: KeywordLookup,
    names: PublisherNames,
    mask: u64,
    spare: Option<String>,
) -> bool {
    let found = keywords_in(names.keywords@, mask);
    let missing = keywords_missing(found, mask);
    &&& crate::text::texts(lookup.names@) == if missing {
        keyword_answer(spare)
    } else {
        found
    }
    &&& lookup.hit == !missing
    &&& lookup.table_miss == missing
}

/// A fallback's answer serves one lookup and no other: what is known afterwards
/// does not depend on it.
pub proof fn fallback_answers_are_never_stored(
    before: Seq<((Seq<char>, u32), Entry)>,
    capacity: nat,
    key: (Seq<char>, u32),
    now: Tick,
    refresh: nat,
    field: NameField,
    value: u64,
    answer: Option<PublisherNames>,
    after: (Seq<((Seq<char>, u32), Entry)>, Seq<((Seq<char>, u32), Entry)>),
    lookups: (Lookup, Lookup),
    spares: (Option<String>, Option<String>),
)
    requires
        is_lookup(
            before,
            capacity,
            key,
            now,
            refresh,
            field,
            value,
            after.0,
            lookups.0,
            answer,
            spares.0,
        ),
        is_lookup(
            before,
            capacity,
            key,
            now,
            refresh,
            field,
            value,
            after.1,
            lookups.1,
            answer,
            spares.1,
        ),
    ensures
        after.0 == after.1,
        lookups.0.hit == lookups.1.hit,
        lookups.0.hit ==> crate::status::opt_chars(lookups.0.name) == crate::status::opt_chars(
            lookups.1.name,
        ),
{
}

/// A lookup of one publisher leaves what is known of every other as it was,
/// unless the cache was full and the other was the one least recently used; and
/// it stores nothing but the answer of an enumeration.
pub proof fn lookups_store_only_enumerations(
    entries: Seq<((Seq<char>, u32), Entry)>,
    capacity: nat,
    key: (Seq<char>, u32),
    other: (Seq<char>, u32),
    now: Tick,
    refresh: nat,
    answer: Option<PublisherNames>,
)
    requires
        crate::cache::keys_differ(entries),
        0 < capacity,
        entries.len() <= capacity,
    ensures
        ({
            let known = crate::cache::value_of(entries, key);
            let after = ensured(entries, capacity, key, now, refresh, answer);
            &&& crate::cache::value_of(after, key) == if prepared(known, now, refresh)
                == Prepare::NeedEnumerate {
                Some(enumerated(answer, now))
            } else {
                known
            }
            &&& other != key && (crate::cache::is_resident(entries, key) || entries.len()
                < capacity || entries.last().0 != other) ==> crate::cache::value_of(after, other)
                == crate::cache::value_of(entries, other)
        }),
{
    let asked = crate::cache::touched(entries, key);
    crate::cache::looking_up_changes_no_value(entries, key, key);
    crate::cache::looking_up_changes_no_value(entries, key, other);
    crate::cache::touching_keeps_keys_apart(entries, key);
    let entry = enumerated(answer, now);
    crate::cache::stored_values_are_found(asked, capacity, key, entry);
    if other != key {
        crate::cache::storing_evicts_only_the_last(asked, capacity, key, entry, other);
    }
}

} // verus!
