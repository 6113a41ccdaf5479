//! A table of values under distinct names.

use vstd::prelude::*;

use crate::text::text_eq;

verus! {

/// Values under distinct names, in the order in which the names came. Its view
/// is the map from names to values.
#[derive(Debug, PartialEq, Eq)]
pub struct NameTable<V> {
    pub(crate) entries: Vec<(String, V)>,
}

impl<V> NameTable<V> {
    /// Where a name stands.
    pub closed spec fn at(self, name: Seq<char>, i: int) -> bool {
        0 <= i < self.entries@.len() && self.entries@[i].0@ == name
    }

    /// Whether no name stands twice.
    pub closed spec fn wf(self) -> bool {
        forall|i: int, j: int|
            0 <= i < j < self.entries@.len() ==> #[trigger] self.entries@[i].0@
                != #[trigger] self.entries@[j].0@
    }

    /// The names in order.
    pub closed spec fn names(self) -> Seq<Seq<char>> {
        self.entries@.map_values(|e: (String, V)| e.0@)
    }
}

impl<V> View for NameTable<V> {
    type V = Map<Seq<char>, V>;

    closed spec fn view(&self) -> Map<Seq<char>, V> {
        Map::new(
            |name: Seq<char>| exists|i: int| self.at(name, i),
            |name: Seq<char>| self.entries@[choose|i: int| self.at(name, i)].1,
        )
    }
}

impl<V> NameTable<V> {
    proof fn lemma_lookup(self, i: int)
        requires
            self.wf(),
            0 <= i < self.entries@.len(),
        ensures
            self@.contains_key(self.entries@[i].0@),
            self@[self.entries@[i].0@] == self.entries@[i].1,
    {
        let name = self.entries@[i].0@;
        assert(self.at(name, i));
        let j = choose|j: int| self.at(name, j);
        assert(self.at(name, j));
        assert(i == j);
    }

    /// The names are the keys of the view, each once.
    pub proof fn names_are_the_keys(self)
        requires
            self.wf(),
        ensures
            self.names().no_duplicates(),
            forall|name: Seq<char>| self@.contains_key(name) <==> self.names().contains(name),
    {
        assert forall|name: Seq<char>| self@.contains_key(name) <==> self.names().contains(name) by {
            if self@.contains_key(name) {
                let i = choose|i: int| self.at(name, i);
                assert(self.names()[i] == name);
            }
            if self.names().contains(name) {
                let i = choose|i: int| 0 <= i < self.names().len() && self.names()[i] == name;
                assert(self.at(name, i));
            }
        }
    }

    /// The table without entries.
    pub fn new() -> (table: NameTable<V>)
        ensures
            table.wf(),
            table@ == Map::<Seq<char>, V>::empty(),
            table.names() == Seq::<Seq<char>>::empty(),
    {
        let table: NameTable<V> = NameTable { entries: Vec::new() };
        assert(table@ =~= Map::<Seq<char>, V>::empty()) by {
            assert forall|name: Seq<char>, i: int| !table.at(name, i) by {}
        }
        assert(table.names() =~= Seq::<Seq<char>>::empty());
        table
    }

    /// The number of entries.
    pub fn len(&self) -> (len: usize)
        ensures
            len == self.names().len(),
    {
        self.entries.len()
    }

    /// The entry at a position.
    pub fn entry(&self, i: usize) -> (entry: (&str, &V))
        requires
            self.wf(),
            i < self.names().len(),
        ensures
            entry.0@ == self.names()[i as int],
            self@.contains_key(entry.0@),
            self@[entry.0@] == *entry.1,
    {
        proof {
            self.lemma_lookup(i as int);
        }
        (self.entries[i].0.as_str(), &self.entries[i].1)
    }

    fn find(&self, name: &str) -> (found: Option<usize>)
        requires
            self.wf(),
        ensures
            found is Some <==> self@.contains_key(name@),
            found matches Some(i) ==> self.at(name@, i as int),
    {
        let mut i: usize = 0;
        while i < self.entries.len()
            invariant
                self.wf(),
                i <= self.entries@.len(),
                forall|j: int| 0 <= j < i ==> self.entries@[j].0@ != name@,
            decreases self.entries.len() - i,
        {
            if text_eq(self.entries[i].0.as_str(), name) {
                assert(self.at(name@, i as int));
                return Some(i);
            }
            i += 1;
        }
        assert forall|j: int| !self.at(name@, j) by {}
        None
    }

    /// The value under a name.
    pub fn get(&self, name: &str) -> (value: Option<&V>)
        requires
            self.wf(),
        ensures
            value is Some <==> self@.contains_key(name@),
            value matches Some(v) ==> *v == self@[name@],
    {
        match self.find(name) {
            Some(i) => {
                proof {
                    self.lemma_lookup(i as int);
                }
                Some(&self.entries[i].1)
            },
            None => None,
        }
    }

    /// Put a value under a name, in place of the value that stood there.
    pub fn insert(&mut self, name: String, value: V)
        requires
            old(self).wf(),
        ensures
            final(self).wf(),
            final(self)@ == old(self)@.insert(name@, value),
            final(self).names() == if old(self)@.contains_key(name@) {
                old(self).names()
            } else {
                old(self).names().push(name@)
            },
    {
        let ghost before = *self;
        match self.find(name.as_str()) {
            Some(i) => {
                self.entries[i] = (name, value);
                proof {
                    assert(self.names() =~= before.names());
                    assert forall|k: Seq<char>, j: int| self.at(k, j) <==> before.at(k, j) by {}
                    assert forall|k: Seq<char>|
                        self@.contains_key(k) <==> before@.insert(name@, value).contains_key(k) by {
                        if self@.contains_key(k) {
                            let j = choose|j: int| self.at(k, j);
                            assert(before.at(k, j));
                        }
                        if before@.contains_key(k) {
                            let j = choose|j: int| before.at(k, j);
                            assert(self.at(k, j));
                        }
                        assert(self.at(name@, i as int));
                    }
                    assert forall|k: Seq<char>| self@.contains_key(k) implies self@[k]
                        == before@.insert(name@, value)[k] by {
                        let j = choose|j: int| self.at(k, j);
                        self.lemma_lookup(j);
                        before.lemma_lookup(j);
                        assert(self.at(name@, i as int));
                    }
                    assert(self@ =~= before@.insert(name@, value));
                }
            },
            None => {
                self.entries.push((name, value));
                proof {
                    let n = before.entries@.len() as int;
                    assert(self.names() =~= before.names().push(name@));
                    assert forall|i: int, j: int| 0 <= i < j < self.entries@.len() implies
                        #[trigger] self.entries@[i].0@ != #[trigger] self.entries@[j].0@ by {
                        if j == n && self.entries@[i].0@ == name@ {
                            assert(before.at(name@, i));
                        }
                    }
                    assert(self.at(name@, n));
                    assert forall|k: Seq<char>|
                        self@.contains_key(k) <==> before@.insert(name@, value).contains_key(k) by {
                        if self@.contains_key(k) {
                            let j = choose|j: int| self.at(k, j);
                            if j < n {
                                assert(before.at(k, j));
                            }
                        }
                        if before@.contains_key(k) {
                            let j = choose|j: int| before.at(k, j);
                            assert(self.at(k, j));
                        }
                    }
                    assert forall|k: Seq<char>| self@.contains_key(k) implies self@[k]
                        == before@.insert(name@, value)[k] by {
                        let j = choose|j: int| self.at(k, j);
                        self.lemma_lookup(j);
                        if j < n {
                            before.lemma_lookup(j);
                            assert(before.at(k, j));
                        }
                    }
                    assert(self@ =~= before@.insert(name@, value));
                }
            },
        }
    }

    /// Take a name out.
    pub fn remove(&mut self, name: &str)
        requires
            old(self).wf(),
        ensures
            final(self).wf(),
            final(self)@ == old(self)@.remove(name@),
            !old(self)@.contains_key(name@) ==> final(self).names() == old(self).names(),
    {
        let ghost before = *self;
        match self.find(name) {
            Some(i) => {
                let _ = self.entries.remove(i);
                proof {
                    assert forall|k: Seq<char>|
                        self@.contains_key(k) <==> before@.remove(name@).contains_key(k) by {
                        if self@.contains_key(k) {
                            let j = choose|j: int| self.at(k, j);
                            let o = if j < i { j } else { j + 1 };
                            assert(self.entries@[j] == before.entries@[o]);
                            assert(before.at(k, o));
                        }
                        if before@.contains_key(k) && k != name@ {
                            let o = choose|o: int| before.at(k, o);
                            let j = if o < i { o } else { o - 1 };
                            assert(self.entries@[j] == before.entries@[o]);
                            assert(self.at(k, j));
                        }
                    }
                    assert forall|k: Seq<char>| self@.contains_key(k) implies self@[k]
                        == before@.remove(name@)[k] by {
                        let j = choose|j: int| self.at(k, j);
                        let o = if j < i { j } else { j + 1 };
                        assert(self.entries@[j] == before.entries@[o]);
                        self.lemma_lookup(j);
                        before.lemma_lookup(o);
                    }
                    assert(self@ =~= before@.remove(name@));
                }
            },
            None => {
                assert(self@ =~= before@.remove(name@));
            },
        }
    }
}

} // verus!
