//! A small map from names to values that keeps its entries in the order in
//! which their keys first arrived, held in one vector and searched linearly.

use vstd::prelude::*;

verus! {

/// A map keyed by strings. Keys are compared by exact equality; inserting
/// under a key that is present replaces the value where it stands.
#[derive(Debug)]
pub struct StringMap<V> {
    entries: Vec<(String, V)>,
}

impl<V: View> View for StringMap<V> {
    type V = Map<Seq<char>, V::V>;

    /// The mapping from each key to the value stored under it.
    open spec fn view(&self) -> Self::V {
        Map::new(
            |k: Seq<char>| self.keys().contains(k),
            |k: Seq<char>| self.values()[self.keys().index_of(k)],
        )
    }
}

impl<V: View> StringMap<V> {
    /// The keys, in the order in which they were first inserted.
    pub closed spec fn keys(&self) -> Seq<Seq<char>> {
        Seq::new(self.entries@.len(), |i: int| self.entries@[i].0@)
    }

    /// The values, each at the position of its key in `keys`.
    pub closed spec fn values(&self) -> Seq<V::V> {
        Seq::new(self.entries@.len(), |i: int| self.entries@[i].1@)
    }

    /// No key occurs twice.
    pub open spec fn wf(&self) -> bool {
        &&& self.keys().len() == self.values().len()
        &&& self.keys().no_duplicates()
    }

    /// In a well-formed map the value under the key at position `i` is the
    /// value at position `i`.
    pub proof fn lemma_entry(&self, i: int)
        requires
            self.wf(),
            0 <= i < self.keys().len(),
        ensures
            self@.contains_key(self.keys()[i]),
            self@[self.keys()[i]] == self.values()[i],
    {
        let k = self.keys()[i];
        assert(self.keys().contains(k));
        let j = self.keys().index_of(k);
        assert(self.keys()[j] == k);
    }

    /// An empty map.
    pub fn new() -> (m: Self)
        ensures
            m.wf(),
            m.keys() == Seq::<Seq<char>>::empty(),
            m.values() == Seq::<V::V>::empty(),
            m@ == Map::<Seq<char>, V::V>::empty(),
    {
        let m = StringMap { entries: Vec::new() };
        assert(m.keys() =~= Seq::<Seq<char>>::empty());
        assert(m.values() =~= Seq::<V::V>::empty());
        assert(m@ =~= Map::<Seq<char>, V::V>::empty());
        m
    }

    /// The number of entries.
    pub fn len(&self) -> (n: usize)
        ensures
            n == self.keys().len(),
            n == self.values().len(),
    {
        self.entries.len()
    }

    /// Whether the map holds no entry.
    pub fn is_empty(&self) -> (empty: bool)
        ensures
            empty == (self.keys().len() == 0),
    {
        self.entries.len() == 0
    }

    /// The position of `key` among the keys, if it is present.
    pub fn position(&self, key: &String) -> (found: Option<usize>)
        ensures
            match found {
                Some(i) => i < self.keys().len() && self.keys()[i as int] == key@,
                None => !self.keys().contains(key@),
            },
    {
        let mut i: usize = 0;
        while i < self.entries.len()
            invariant
                i <= self.entries.len(),
                forall|j: int| 0 <= j < i ==> self.keys()[j] != key@,
            decreases self.entries.len() - i,
        {
            if self.entries[i].0 == *key {
                return Some(i);
            }
            i += 1;
        }
        None
    }

    /// Whether a value is stored under `key`.
    pub fn contains_key(&self, key: &String) -> (present: bool)
        ensures
            present == self@.contains_key(key@),
    {
        self.position(key).is_some()
    }

    /// The value stored under `key`, if there is one.
    pub fn get(&self, key: &String) -> (found: Option<&V>)
        requires
            self.wf(),
        ensures
            match found {
                Some(value) => self@.contains_key(key@) && value@ == self@[key@],
                None => !self@.contains_key(key@),
            },
    {
        match self.position(key) {
            Some(i) => {
                proof {
                    self.lemma_entry(i as int);
                }
                Some(&self.entries[i].1)
            },
            None => None,
        }
    }

    /// The key at position `i` in insertion order.
    pub fn key_at(&self, i: usize) -> (key: &String)
        requires
            i < self.keys().len(),
        ensures
            key@ == self.keys()[i as int],
    {
        &self.entries[i].0
    }

    /// The value at position `i` in insertion order.
    pub fn value_at(&self, i: usize) -> (value: &V)
        requires
            i < self.values().len(),
        ensures
            value@ == self.values()[i as int],
    {
        &self.entries[i].1
    }

    /// Stores `value` under `key`. A key that is present keeps its position
    /// and gives back the value it had; a new key goes to the end.
    pub fn insert(&mut self, key: String, value: V) -> (replaced: Option<V>)
        requires
            old(self).wf(),
        ensures
            final(self).wf(),
            final(self)@ == old(self)@.insert(key@, value@),
            match replaced {
                Some(previous) => {
                    &&& old(self)@.contains_key(key@)
                    &&& previous@ == old(self)@[key@]
                    &&& final(self).keys() == old(self).keys()
                },
                None => {
                    &&& !old(self)@.contains_key(key@)
                    &&& final(self).keys() == old(self).keys().push(key@)
                },
            },
            final(self).values() == (match replaced {
                Some(_) => old(self).values().update(old(self).keys().index_of(key@), value@),
                None => old(self).values().push(value@),
            }),
    {
        let ghost old_keys = self.keys();
        let ghost old_values = self.values();
        let ghost old_view = self@;
        let found = self.position(&key);
        self.entries.push((key, value));
        match found {
            Some(i) => {
                let previous = self.entries.swap_remove(i);
                proof {
                    let idx = old_keys.index_of(key@);
                    assert(old_keys[i as int] == key@);
                    assert(old_keys[idx] == key@);
                    assert(idx == i);
                    assert(self.keys() =~= old_keys);
                    assert(self.values() =~= old_values.update(i as int, value@));
                    assert(self@ =~= old_view.insert(key@, value@)) by {
                        assert forall|k: Seq<char>| self@.contains_key(k) implies #[trigger] self@[k]
                            == old_view.insert(key@, value@)[k] by {
                            let j = old_keys.index_of(k);
                            assert(old_keys[j] == k);
                        }
                    }
                    assert(previous.1@ == old_values[i as int]);
                }
                Some(previous.1)
            },
            None => {
                proof {
                    assert(self.keys() =~= old_keys.push(key@));
                    assert(self.values() =~= old_values.push(value@));
                    assert forall|a: int, b: int|
                        0 <= a < self.keys().len() && 0 <= b < self.keys().len() && a != b implies self.keys()[a]
                        != self.keys()[b] by {
                        if a < old_keys.len() {
                            assert(old_keys.contains(old_keys[a]));
                        }
                        if b < old_keys.len() {
                            assert(old_keys.contains(old_keys[b]));
                        }
                    }
                    let target = old_view.insert(key@, value@);
                    assert forall|k: Seq<char>| #[trigger] target.contains_key(k) implies self@.contains_key(k)
                        && self@[k] == target[k] by {
                        if k == key@ {
                            assert(self.keys()[old_keys.len() as int] == k);
                            assert(self.keys().contains(k));
                            let j = self.keys().index_of(k);
                            assert(self.keys()[j] == k);
                            assert(j == old_keys.len());
                        } else {
                            assert(old_view.contains_key(k));
                            let j0 = old_keys.index_of(k);
                            assert(old_keys[j0] == k);
                            assert(self.keys()[j0] == k);
                            assert(self.keys().contains(k));
                            let j = self.keys().index_of(k);
                            assert(self.keys()[j] == k);
                            assert(j == j0);
                        }
                    }
                    assert forall|k: Seq<char>| #[trigger] self@.contains_key(k) implies target.contains_key(k) by {
                        let j = self.keys().index_of(k);
                        assert(self.keys()[j] == k);
                        if j < old_keys.len() {
                            assert(old_keys[j] == k);
                            assert(old_keys.contains(k));
                        }
                    }
                    assert(self@.dom() =~= target.dom());
                    assert(self@ =~= target);
                }
                None
            },
        }
    }
}

} // verus!
