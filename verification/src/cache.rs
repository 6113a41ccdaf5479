//! A bounded cache: the value least recently used leaves when it is full.
//!
//! The recency of keys is kept by [`lru::LruCache`]; it maps each key to the slot
//! that holds the key's value.

use std::num::NonZeroUsize;

use lru::LruCache;
use vstd::prelude::*;

verus! {

/// `lru::LruCache`, a map with a bounded number of entries in order of use.
#[verifier::external_type_specification]
#[verifier::external_body]
#[verifier::reject_recursive_types(K)]
#[verifier::reject_recursive_types(V)]
#[verifier::reject_recursive_types(S)]
pub struct ExLruCache<K, V, S>(LruCache<K, V, S>);

/// `lru::DefaultHasher`, how an `LruCache` hashes its keys.
#[verifier::external_type_specification]
#[verifier::external_body]
pub struct ExDefaultHasher(lru::DefaultHasher);

/// The entries of an index, most recently used first.
pub uninterp spec fn index_entries(index: LruCache<(String, u32), usize>) -> Seq<
    ((Seq<char>, u32), usize),
>;

/// The number of entries that an index was made for.
pub uninterp spec fn index_capacity(index: LruCache<(String, u32), usize>) -> nat;

/// The position of the first entry with a key, or the number of entries where
/// none has it.
pub open spec fn position_of<V>(entries: Seq<((Seq<char>, u32), V)>, key: (Seq<char>, u32)) -> int
    decreases entries.len(),
{
    if entries.len() == 0 {
        0
    } else if entries[0].0 == key {
        0
    } else {
        1 + position_of(entries.skip(1), key)
    }
}

/// Whether an entry has a key.
pub open spec fn is_resident<V>(
    entries: Seq<((Seq<char>, u32), V)>,
    key: (Seq<char>, u32),
) -> bool {
    position_of(entries, key) < entries.len()
}

/// The value of a key.
pub open spec fn value_of<V>(entries: Seq<((Seq<char>, u32), V)>, key: (Seq<char>, u32)) -> Option<
    V,
> {
    if is_resident(entries, key) {
        Some(entries[position_of(entries, key)].1)
    } else {
        None
    }
}

/// The entries after a key was looked up: a resident key moves to the front.
pub open spec fn touched<V>(entries: Seq<((Seq<char>, u32), V)>, key: (Seq<char>, u32)) -> Seq<
    ((Seq<char>, u32), V),
> {
    if is_resident(entries, key) {
        let at = position_of(entries, key);
        seq![entries[at]] + entries.remove(at)
    } else {
        entries
    }
}

/// The entries after a key was given a value: it moves to the front, and where
/// a new key finds the cache full, the last entry leaves.
pub open spec fn stored<V>(
    entries: Seq<((Seq<char>, u32), V)>,
    capacity: nat,
    key: (Seq<char>, u32),
    value: V,
) -> Seq<((Seq<char>, u32), V)> {
    let rest = if is_resident(entries, key) {
        entries.remove(position_of(entries, key))
    } else if entries.len() == capacity {
        entries.drop_last()
    } else {
        entries
    };
    seq![(key, value)] + rest
}

/// The value that leaves when a key is given a value: the one that the key had,
/// or that of the entry that makes room.
pub open spec fn displaced<V>(
    entries: Seq<((Seq<char>, u32), V)>,
    capacity: nat,
    key: (Seq<char>, u32),
) -> Option<V> {
    if is_resident(entries, key) {
        value_of(entries, key)
    } else if entries.len() == capacity {
        Some(entries.last().1)
    } else {
        None
    }
}

/// `LruCache::sparse` makes an empty index with the given capacity, which is not
/// zero. No room is set aside for entries before they come.
#[verifier::external_body]
fn new_index(capacity: usize) -> (index: LruCache<(String, u32), usize>)
    requires
        0 < capacity,
    ensures
        index_entries(index) == Seq::<((Seq<char>, u32), usize)>::empty(),
        index_capacity(index) == capacity,
{
    LruCache::sparse(NonZeroUsize::new(capacity).expect("a cache capacity is not zero"))
}

/// `LruCache::get` finds the value of a key and moves the key to the front.
#[verifier::external_body]
fn look_up(index: &mut LruCache<(String, u32), usize>, key: &(String, u32)) -> (slot: Option<usize>)
    ensures
        slot == value_of(index_entries(*old(index)), (key.0@, key.1)),
        index_entries(*final(index)) == touched(index_entries(*old(index)), (key.0@, key.1)),
        index_capacity(*final(index)) == index_capacity(*old(index)),
{
    index.get(key).copied()
}

/// `LruCache::put` gives a key a value and moves the key to the front; where a
/// new key finds the index full, the entry least recently used leaves.
#[verifier::external_body]
fn put(index: &mut LruCache<(String, u32), usize>, key: (String, u32), slot: usize)
    ensures
        index_entries(*final(index)) == stored(
            index_entries(*old(index)),
            index_capacity(*old(index)),
            (key.0@, key.1),
            slot,
        ),
        index_capacity(*final(index)) == index_capacity(*old(index)),
{
    index.put(key, slot);
}

/// `LruCache::pop_lru` takes the entry least recently used out.
#[verifier::external_body]
fn pop_last(index: &mut LruCache<(String, u32), usize>) -> (slot: Option<usize>)
    ensures
        match slot {
            None => index_entries(*old(index)).len() == 0 && index_entries(*final(index))
                == index_entries(*old(index)),
            Some(s) => {
                &&& index_entries(*old(index)).len() > 0
                &&& s == index_entries(*old(index)).last().1
                &&& index_entries(*final(index)) == index_entries(*old(index)).drop_last()
            },
        },
        index_capacity(*final(index)) == index_capacity(*old(index)),
{
    index.pop_lru().map(|entry| entry.1)
}

/// A cache of a bounded number of values.
pub struct BoundedCache<V> {
    index: LruCache<(String, u32), usize>,
    values: Vec<V>,
    capacity: usize,
}

/// Whether no key occurs twice.
pub open spec fn keys_differ<V>(entries: Seq<((Seq<char>, u32), V)>) -> bool {
    forall|i: int, j: int|
        0 <= i < j < entries.len() ==> (#[trigger] entries[i]).0 != (#[trigger] entries[j]).0
}

proof fn lemma_position<V>(entries: Seq<((Seq<char>, u32), V)>, key: (Seq<char>, u32))
    ensures
        0 <= position_of(entries, key) <= entries.len(),
        is_resident(entries, key) ==> entries[position_of(entries, key)].0 == key,
        forall|i: int|
            0 <= i < position_of(entries, key) ==> (#[trigger] entries[i]).0 != key,
    decreases entries.len(),
{
    if entries.len() > 0 && entries[0].0 != key {
        let rest = entries.skip(1);
        lemma_position(rest, key);
        assert forall|i: int| 0 <= i < position_of(entries, key) implies (
        #[trigger] entries[i]).0 != key by {
            if i > 0 {
                assert(entries[i] == rest[i - 1]);
            }
        }
    }
}

/// The entry at a position is the first with its key, where no key occurs twice.
proof fn lemma_position_is<V>(entries: Seq<((Seq<char>, u32), V)>, at: int)
    requires
        keys_differ(entries),
        0 <= at < entries.len(),
    ensures
        position_of(entries, entries[at].0) == at,
{
    lemma_position(entries, entries[at].0);
}

/// Two lists with the same keys in the same order find a key at the same place.
proof fn lemma_same_position<A, B>(
    a: Seq<((Seq<char>, u32), A)>,
    b: Seq<((Seq<char>, u32), B)>,
    key: (Seq<char>, u32),
)
    requires
        a.len() == b.len(),
        forall|i: int| 0 <= i < a.len() ==> (#[trigger] a[i]).0 == b[i].0,
    ensures
        position_of(a, key) == position_of(b, key),
    decreases a.len(),
{
    if a.len() > 0 && a[0].0 != key {
        assert(a[0].0 == b[0].0);
        assert forall|i: int| 0 <= i < a.skip(1).len() implies (#[trigger] a.skip(1)[i]).0 == b.skip(
            1,
        )[i].0 by {
            assert(a[i + 1].0 == b[i + 1].0);
        }
        lemma_same_position(a.skip(1), b.skip(1), key);
    } else if a.len() > 0 {
        assert(a[0].0 == b[0].0);
    }
}

impl<V> View for BoundedCache<V> {
    type V = Seq<((Seq<char>, u32), V)>;

    /// The entries, most recently used first.
    closed spec fn view(&self) -> Seq<((Seq<char>, u32), V)> {
        let entries = index_entries(self.index);
        Seq::new(
            entries.len(),
            |i: int| (entries[i].0, self.values@[entries[i].1 as int]),
        )
    }
}

impl<V> BoundedCache<V> {
    /// Each entry has a slot of its own, and no slot is wasted.
    pub closed spec fn wf(self) -> bool {
        let entries = index_entries(self.index);
        &&& 0 < self.capacity
        &&& index_capacity(self.index) == self.capacity
        &&& entries.len() == self.values@.len() <= self.capacity
        &&& keys_differ(entries)
        &&& forall|i: int|
            0 <= i < entries.len() ==> (#[trigger] entries[i]).1 < self.values@.len()
        &&& forall|i: int, j: int|
            0 <= i < j < entries.len() ==> (#[trigger] entries[i]).1 != (#[trigger] entries[j]).1
    }

    /// The number of entries that there is room for.
    pub closed spec fn limit(self) -> nat {
        self.capacity as nat
    }

    /// What a well-formed cache keeps: it stays within its limit, and no key
    /// occurs twice.
    pub proof fn stays_bounded(self)
        requires
            self.wf(),
        ensures
            self@.len() <= self.limit(),
            0 < self.limit(),
            keys_differ(self@),
    {
        let entries = index_entries(self.index);
        assert forall|i: int, j: int| 0 <= i < j < self@.len() implies (#[trigger] self@[i]).0 != (
        #[trigger] self@[j]).0 by {
            assert(entries[i].0 != entries[j].0);
        }
    }

    /// An empty cache.
    pub fn with_capacity(capacity: usize) -> (cache: BoundedCache<V>)
        requires
            0 < capacity,
        ensures
            cache.wf(),
            cache@ == Seq::<((Seq<char>, u32), V)>::empty(),
            cache.limit() == capacity,
    {
        let cache = BoundedCache { index: new_index(capacity), values: Vec::new(), capacity };
        assert(cache@ =~= Seq::<((Seq<char>, u32), V)>::empty());
        cache
    }

    /// The number of entries.
    pub fn len(&self) -> (n: usize)
        requires
            self.wf(),
        ensures
            n == self@.len(),
    {
        self.values.len()
    }

    /// Drop every entry.
    pub fn clear(&mut self)
        requires
            old(self).wf(),
        ensures
            final(self).wf(),
            final(self)@ == Seq::<((Seq<char>, u32), V)>::empty(),
            final(self).limit() == old(self).limit(),
    {
        self.index = new_index(self.capacity);
        self.values = Vec::new();
        assert(self@ =~= Seq::<((Seq<char>, u32), V)>::empty());
    }

    /// The slot of a key, which becomes the one most recently used.
    fn slot_of(&mut self, key: &(String, u32)) -> (slot: Option<usize>)
        requires
            old(self).wf(),
        ensures
            final(self).wf(),
            final(self).limit() == old(self).limit(),
            final(self)@ == touched(old(self)@, (key.0@, key.1)),
            final(self).values@ == old(self).values@,
            slot is Some == is_resident(old(self)@, (key.0@, key.1)),
            slot matches Some(s) ==> {
                &&& s < final(self).values@.len()
                &&& index_entries(final(self).index).len() > 0
                &&& s == index_entries(final(self).index)[0].1
                &&& Some(final(self).values@[s as int]) == value_of(old(self)@, (key.0@, key.1))
            },
    {
        let ghost name = (key.0@, key.1);
        let ghost before = index_entries(self.index);
        let ghost start = self@;
        let slot: Option<usize> = look_up(&mut self.index, key);
        proof {
            lemma_position(before, name);
            lemma_same_position(start, before, name);
            let after = index_entries(self.index);
            if is_resident(before, name) {
                let at = position_of(before, name);
                assert forall|i: int, j: int| 0 <= i < j < after.len() implies (
                #[trigger] after[i]).0 != (#[trigger] after[j]).0 && after[i].1 != after[j].1 by {
                    let a = if i == 0 { at } else if i <= at { i - 1 } else { i };
                    let b = if j <= at { j - 1 } else { j };
                    assert(after[i] == before[a]);
                    assert(after[j] == before[b]);
                    if a < b {
                        assert(before[a].0 != before[b].0);
                        assert(before[a].1 != before[b].1);
                    } else {
                        assert(before[b].0 != before[a].0);
                        assert(before[b].1 != before[a].1);
                    }
                }
                assert forall|i: int| 0 <= i < after.len() implies (#[trigger] after[i]).1
                    < self.values@.len() by {
                    let a = if i == 0 { at } else if i <= at { i - 1 } else { i };
                    assert(after[i] == before[a]);
                }
                assert(self@ =~= touched(start, name)) by {
                    assert forall|i: int| 0 <= i < after.len() implies #[trigger] self@[i]
                        == touched(start, name)[i] by {
                        let a = if i == 0 { at } else if i <= at { i - 1 } else { i };
                        assert(after[i] == before[a]);
                        assert(touched(start, name)[i] == start[a]);
                    }
                }
            } else {
                assert(self@ =~= touched(start, name));
            }
        }
        slot
    }

    /// The value of a key, which becomes the one most recently used.
    pub fn get(&mut self, key: &(String, u32)) -> (value: Option<&V>)
        requires
            old(self).wf(),
        ensures
            final(self).wf(),
            final(self).limit() == old(self).limit(),
            final(self)@ == touched(old(self)@, (key.0@, key.1)),
            match value {
                Some(v) => Some(*v) == value_of(old(self)@, (key.0@, key.1)),
                None => value_of(old(self)@, (key.0@, key.1)) is None,
            },
    {
        match self.slot_of(key) {
            Some(slot) => Some(&self.values[slot]),
            None => None,
        }
    }

    /// Give a key a value. Where a new key finds the cache full, the entry least
    /// recently used leaves. The value that left is handed back.
    pub fn put(&mut self, key: (String, u32), value: V) -> (left: Option<V>)
        requires
            old(self).wf(),
        ensures
            final(self).wf(),
            final(self).limit() == old(self).limit(),
            final(self)@ == stored(old(self)@, old(self).limit(), (key.0@, key.1), value),
            left == displaced(old(self)@, old(self).limit(), (key.0@, key.1)),
    {
        let ghost name = (key.0@, key.1);
        let ghost start = self@;
        let ghost first = index_entries(self.index);
        proof {
            lemma_position(first, name);
            lemma_same_position(start, first, name);
        }
        match self.slot_of(&key) {
            Some(slot) => {
                let ghost touched_entries = index_entries(self.index);
                let ghost values = self.values@;
                let mut left: V = value;
                std::mem::swap(&mut self.values[slot], &mut left);
                proof {
                    let at = position_of(start, name);
                    assert(touched_entries[0].1 == slot);
                    assert forall|i: int| 0 <= i < self@.len() implies #[trigger] self@[i]
                        == stored(start, self.limit(), name, value)[i] by {
                        let t = touched(start, name);
                        if i > 0 {
                            assert(touched_entries[0].1 != touched_entries[i].1);
                            assert(t[i] == (touched_entries[i].0, values[touched_entries[i].1 as int]));
                            assert(self@[i] == t[i]);
                        } else {
                            assert(t[0].0 == touched_entries[0].0);
                        }
                    }
                    assert(self@ =~= stored(start, self.limit(), name, value));
                }
                Some(left)
            },
            None => {
                assert(touched(start, name) == start);
                if self.values.len() < self.capacity {
                    let slot: usize = self.values.len();
                    let ghost before = index_entries(self.index);
                    let ghost values = self.values@;
                    self.values.push(value);
                    proof {
                        lemma_same_position(start, before, name);
                    }
                    put(&mut self.index, key, slot);
                    proof {
                        lemma_stored(before, name, slot);
                        let after = index_entries(self.index);
                        assert(after == seq![(name, slot)] + before);
                        assert forall|i: int| 0 <= i < self@.len() implies #[trigger] self@[i]
                            == stored(start, self.limit(), name, value)[i] by {
                            if i > 0 {
                                assert(after[i] == before[i - 1]);
                                assert(start[i - 1] == (before[i - 1].0, values[before[i - 1].1 as int]));
                            }
                        }
                        assert(self@ =~= stored(start, self.limit(), name, value));
                    }
                    None
                } else {
                    let ghost full = index_entries(self.index);
                    let ghost values = self.values@;
                    let last: Option<usize> = pop_last(&mut self.index);
                    let slot: usize = match last {
                        Some(slot) => slot,
                        None => 0,
                    };
                    let ghost before = index_entries(self.index);
                    let mut left: V = value;
                    std::mem::swap(&mut self.values[slot], &mut left);
                    proof {
                        lemma_same_position(start, full, name);
                        lemma_absent_from_fewer(full, name);
                        assert forall|i: int| 0 <= i < before.len() implies (
                        #[trigger] before[i]).1 != slot by {
                            assert(full[i].1 != full[full.len() - 1].1);
                        }
                    }
                    put(&mut self.index, key, slot);
                    proof {
                        lemma_stored(before, name, slot);
                        let after = index_entries(self.index);
                        assert(after == seq![(name, slot)] + before);
                        assert forall|i: int| 0 <= i < self@.len() implies #[trigger] self@[i]
                            == stored(start, self.limit(), name, value)[i] by {
                            if i > 0 {
                                assert(after[i] == before[i - 1]);
                                assert(before[i - 1] == full[i - 1]);
                                assert(start[i - 1] == (full[i - 1].0, values[full[i - 1].1 as int]));
                            }
                        }
                        assert(self@ =~= stored(start, self.limit(), name, value));
                    }
                    Some(left)
                }
            },
        }
    }
}

/// A key that is not among the entries is not among all but the last.
proof fn lemma_absent_from_fewer<V>(entries: Seq<((Seq<char>, u32), V)>, key: (Seq<char>, u32))
    requires
        !is_resident(entries, key),
        entries.len() > 0,
    ensures
        !is_resident(entries.drop_last(), key),
{
    lemma_position(entries, key);
    lemma_position(entries.drop_last(), key);
    let fewer = entries.drop_last();
    if is_resident(fewer, key) {
        assert(entries[position_of(fewer, key)].0 == key);
    }
}

/// A new entry in front keeps keys and slots apart.
proof fn lemma_stored(entries: Seq<((Seq<char>, u32), usize)>, key: (Seq<char>, u32), slot: usize)
    requires
        keys_differ(entries),
        !is_resident(entries, key),
        forall|i: int| 0 <= i < entries.len() ==> (#[trigger] entries[i]).1 != slot,
        forall|i: int, j: int|
            0 <= i < j < entries.len() ==> (#[trigger] entries[i]).1 != (#[trigger] entries[j]).1,
    ensures
        ({
            let more = seq![(key, slot)] + entries;
            &&& keys_differ(more)
            &&& forall|i: int, j: int|
                0 <= i < j < more.len() ==> (#[trigger] more[i]).1 != (#[trigger] more[j]).1
        }),
{
    let more = seq![(key, slot)] + entries;
    lemma_position(entries, key);
    assert forall|i: int, j: int| 0 <= i < j < more.len() implies (#[trigger] more[i]).0 != (
    #[trigger] more[j]).0 && more[i].1 != more[j].1 by {
        assert(more[j] == entries[j - 1]);
        if i > 0 {
            assert(more[i] == entries[i - 1]);
        }
    }
}

/// A stored value is found again, under its key and no other.
pub proof fn stored_values_are_found<V>(
    entries: Seq<((Seq<char>, u32), V)>,
    capacity: nat,
    key: (Seq<char>, u32),
    value: V,
)
    ensures
        value_of(stored(entries, capacity, key, value), key) == Some(value),
{
}

/// Storing a value costs at most one other entry, and only where a new key finds
/// the cache full: then the entry least recently used.
pub proof fn storing_evicts_only_the_last<V>(
    entries: Seq<((Seq<char>, u32), V)>,
    capacity: nat,
    key: (Seq<char>, u32),
    value: V,
    other: (Seq<char>, u32),
)
    requires
        keys_differ(entries),
        0 < capacity,
        entries.len() <= capacity,
        other != key,
    ensures
        stored(entries, capacity, key, value).len() <= capacity,
        is_resident(entries, key) || entries.len() < capacity || (entries.len() > 0
            && entries.last().0 != other) ==> value_of(
            stored(entries, capacity, key, value),
            other,
        ) == value_of(entries, other),
{
    let after = stored(entries, capacity, key, value);
    lemma_position(entries, key);
    lemma_position(entries, other);
    lemma_position(after, other);
    lemma_stored_keys_differ(entries, capacity, key, value);
    if is_resident(entries, other) {
        let at = position_of(entries, other);
        let gone = if is_resident(entries, key) {
            position_of(entries, key)
        } else if entries.len() == capacity {
            entries.len() - 1
        } else {
            entries.len() as int
        };
        if at != gone {
            let to = if at < gone { at + 1 } else { at };
            assert(after[to] == entries[at]);
            lemma_position_is(after, to);
        }
    } else if is_resident(after, other) {
        let to = position_of(after, other);
        let gone = if is_resident(entries, key) {
            position_of(entries, key)
        } else {
            entries.len() as int
        };
        assert(to > 0);
        let at = if to - 1 < gone { to - 1 } else { to };
        assert(after[to] == entries[at]);
    }
}

proof fn lemma_stored_keys_differ<V>(
    entries: Seq<((Seq<char>, u32), V)>,
    capacity: nat,
    key: (Seq<char>, u32),
    value: V,
)
    requires
        keys_differ(entries),
        0 < capacity,
    ensures
        keys_differ(stored(entries, capacity, key, value)),
{
    let after = stored(entries, capacity, key, value);
    lemma_position(entries, key);
    let resident = is_resident(entries, key);
    let at = position_of(entries, key);
    assert forall|i: int, j: int| 0 <= i < j < after.len() implies (#[trigger] after[i]).0 != (
    #[trigger] after[j]).0 by {
        let b = if resident && j - 1 >= at { j } else { j - 1 };
        assert(after[j] == entries[b]);
        if i > 0 {
            let a = if resident && i - 1 >= at { i } else { i - 1 };
            assert(after[i] == entries[a]);
        } else if resident {
            if b < at {
                assert(entries[b].0 != key);
            } else {
                assert(entries[at].0 != entries[b].0);
            }
        } else {
            assert(entries[b].0 != key);
        }
    }
}

/// Looking a key up changes no value.
pub proof fn looking_up_changes_no_value<V>(
    entries: Seq<((Seq<char>, u32), V)>,
    key: (Seq<char>, u32),
    other: (Seq<char>, u32),
)
    requires
        keys_differ(entries),
    ensures
        touched(entries, key).len() == entries.len(),
        value_of(touched(entries, key), other) == value_of(entries, other),
{
    lemma_position(entries, key);
    if is_resident(entries, key) {
        let at = position_of(entries, key);
        let after = touched(entries, key);
        assert(after =~= stored(entries, entries.len(), key, entries[at].1));
        if other == key {
            stored_values_are_found(entries, entries.len(), key, entries[at].1);
        } else {
            storing_evicts_only_the_last(entries, entries.len(), key, entries[at].1, other);
        }
    }
}

/// Looking a key up keeps the keys apart, and the key where it was known.
pub proof fn touching_keeps_keys_apart<V>(
    entries: Seq<((Seq<char>, u32), V)>,
    key: (Seq<char>, u32),
)
    requires
        keys_differ(entries),
    ensures
        keys_differ(touched(entries, key)),
        is_resident(touched(entries, key), key) == is_resident(entries, key),
{
    lemma_position(entries, key);
    if is_resident(entries, key) {
        let at = position_of(entries, key);
        assert(touched(entries, key) =~= stored(entries, entries.len(), key, entries[at].1));
        lemma_stored_keys_differ(entries, entries.len(), key, entries[at].1);
        stored_values_are_found(entries, entries.len(), key, entries[at].1);
    }
}

/// The key that was used last is already in front: looking it up again changes
/// nothing.
pub proof fn the_front_stays_in_front<V>(
    entries: Seq<((Seq<char>, u32), V)>,
    capacity: nat,
    key: (Seq<char>, u32),
    value: V,
)
    ensures
        touched(touched(entries, key), key) == touched(entries, key),
        touched(stored(entries, capacity, key, value), key) == stored(
            entries,
            capacity,
            key,
            value,
        ),
{
    lemma_position(entries, key);
    let found = touched(entries, key);
    assert(touched(found, key) =~= found);
    let more = stored(entries, capacity, key, value);
    assert(touched(more, key) =~= more);
}

} // verus!
