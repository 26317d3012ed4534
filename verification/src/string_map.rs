//! A small map keyed by strings, kept as two parallel vectors.
//!
//! vstd models the standard hash map for integer keys only, so a map
//! keyed by strings is kept here with its own proofs. Its invariant is that
//! no key occurs twice, so that a key names at most one value and the map
//! reads as a `Map` from key to value.

use crate::model::string_views;
use vstd::prelude::*;
use vstd::string::StringExecFns;

verus! {

/// How often `key` occurs in `keys`.
pub open spec fn occurrences(keys: Seq<Seq<char>>, key: Seq<char>) -> nat
    decreases keys.len(),
{
    if keys.len() == 0 {
        0
    } else {
        occurrences(keys.drop_last(), key) + if keys.last() == key {
            1nat
        } else {
            0nat
        }
    }
}

/// No key of `keys` occurs twice.
pub open spec fn distinct(keys: Seq<Seq<char>>) -> bool {
    forall|i: int, j: int| 0 <= i < j < keys.len() ==> #[trigger] keys[i] != #[trigger] keys[j]
}

/// Some position of `keys` that holds `key`.
pub open spec fn position_of(keys: Seq<Seq<char>>, key: Seq<char>) -> int {
    choose|i: int| 0 <= i < keys.len() && #[trigger] keys[i] == key
}

/// Among distinct keys, a key that occurs at all occurs once, and a key
/// that does not occur is counted zero times.
pub proof fn lemma_occurrences(keys: Seq<Seq<char>>, key: Seq<char>)
    requires
        distinct(keys),
    ensures
        occurrences(keys, key) <= 1,
        occurrences(keys, key) == 1 <==> keys.contains(key),
    decreases keys.len(),
{
    if keys.len() > 0 {
        let front = keys.drop_last();
        assert forall|i: int, j: int| 0 <= i < j < front.len() implies #[trigger] front[i]
            != #[trigger] front[j] by {
            assert(front[i] == keys[i] && front[j] == keys[j]);
        }
        lemma_occurrences(front, key);
        if keys.last() == key {
            if front.contains(key) {
                let i = choose|i: int| 0 <= i < front.len() && front[i] == key;
                assert(keys[i] == front[i]);
                assert(keys[i] != keys[keys.len() - 1]);
            }
            assert(keys[keys.len() - 1] == key);
        } else {
            if keys.contains(key) {
                let i = choose|i: int| 0 <= i < keys.len() && keys[i] == key;
                assert(front[i] == key);
            }
            if front.contains(key) {
                let i = choose|i: int| 0 <= i < front.len() && front[i] == key;
                assert(keys[i] == key);
            }
        }
    }
}

/// A map from strings to `V` in which each key occurs once.
pub struct StringMap<V> {
    keys: Vec<String>,
    values: Vec<V>,
}

impl<V> View for StringMap<V> {
    type V = Map<Seq<char>, V>;

    closed spec fn view(&self) -> Map<Seq<char>, V> {
        Map::new(
            |k: Seq<char>| string_views(self.keys@).contains(k),
            |k: Seq<char>| self.values@[position_of(string_views(self.keys@), k)],
        )
    }
}

impl<V> StringMap<V> {
    /// The invariant: one value per key, and no key twice.
    pub closed spec fn wf(&self) -> bool {
        &&& self.keys@.len() == self.values@.len()
        &&& distinct(string_views(self.keys@))
    }

    /// The keys in the order in which they were first inserted.
    pub closed spec fn key_seq(&self) -> Seq<Seq<char>> {
        string_views(self.keys@)
    }

    /// The values, each at the position of its key in `key_seq`.
    pub closed spec fn value_seq(&self) -> Seq<V> {
        self.values@
    }

    /// `key_seq` and `value_seq` list exactly what the view maps.
    pub proof fn lemma_entries(&self)
        requires
            self.wf(),
        ensures
            self.key_seq().len() == self.value_seq().len(),
            distinct(self.key_seq()),
            forall|i: int|
                0 <= i < self.key_seq().len() ==> self@.contains_key(#[trigger] self.key_seq()[i])
                    && self@[self.key_seq()[i]] == self.value_seq()[i],
            forall|k: Seq<char>| self@.contains_key(k) <==> self.key_seq().contains(k),
    {
        let keys = string_views(self.keys@);
        assert forall|i: int| 0 <= i < keys.len() implies self@.contains_key(#[trigger] keys[i])
            && self@[keys[i]] == self.values@[i] by {
            Self::lemma_position(keys, i);
        }
    }

    /// Among distinct keys, the position of the key at `i` is `i`.
    proof fn lemma_position(keys: Seq<Seq<char>>, i: int)
        requires
            distinct(keys),
            0 <= i < keys.len(),
        ensures
            keys.contains(keys[i]),
            position_of(keys, keys[i]) == i,
    {
        let j = position_of(keys, keys[i]);
        assert(0 <= j < keys.len() && keys[j] == keys[i]);
        if j < i {
            assert(keys[j] != keys[i]);
        } else if i < j {
            assert(keys[i] != keys[j]);
        }
    }

    /// The number of entries stored under `key`: never more than one.
    pub closed spec fn registrations(&self, key: Seq<char>) -> nat {
        occurrences(string_views(self.keys@), key)
    }

    /// A key is stored at most once, and once exactly when the view maps it.
    pub proof fn lemma_at_most_one(&self, key: Seq<char>)
        requires
            self.wf(),
        ensures
            self.registrations(key) <= 1,
            self.registrations(key) == 1 <==> self@.contains_key(key),
    {
        lemma_occurrences(string_views(self.keys@), key);
    }

    /// An empty map.
    pub fn new() -> (map: Self)
        ensures
            map.wf(),
            map@ == Map::<Seq<char>, V>::empty(),
            map.key_seq() == Seq::<Seq<char>>::empty(),
    {
        let map = StringMap { keys: Vec::new(), values: Vec::new() };
        assert(string_views(map.keys@) =~= Seq::<Seq<char>>::empty());
        assert(map@ =~= Map::<Seq<char>, V>::empty());
        map
    }

    /// The number of entries.
    pub fn len(&self) -> (n: usize)
        requires
            self.wf(),
        ensures
            n == self.key_seq().len(),
            self@.dom().finite(),
            n == self@.dom().len(),
    {
        proof {
            let keys = string_views(self.keys@);
            assert(keys.no_duplicates()) by {
                assert forall|i: int, j: int|
                    0 <= i < keys.len() && 0 <= j < keys.len() && i != j implies keys[i]
                    != keys[j] by {
                    if i < j {
                        assert(keys[i] != keys[j]);
                    } else {
                        assert(keys[j] != keys[i]);
                    }
                }
            }
            keys.unique_seq_to_set();
            assert(self@.dom() =~= keys.to_set());
        }
        self.keys.len()
    }

    /// The key at position `i` of `key_seq`.
    pub fn key_at(&self, i: usize) -> (key: &String)
        requires
            self.wf(),
            i < self.key_seq().len(),
        ensures
            key@ == self.key_seq()[i as int],
    {
        &self.keys[i]
    }

    /// The value at position `i` of `value_seq`.
    pub fn value_at(&self, i: usize) -> (value: &V)
        requires
            self.wf(),
            i < self.key_seq().len(),
        ensures
            *value == self.value_seq()[i as int],
    {
        &self.values[i]
    }

    /// The position of `key`, if the map holds it.
    fn find(&self, key: &str) -> (found: Option<usize>)
        requires
            self.wf(),
        ensures
            match found {
                Some(i) => i < self.keys@.len() && self.keys@[i as int]@ == key@
                    && self@.contains_key(key@) && self@[key@] == self.values@[i as int],
                None => !self@.contains_key(key@),
            },
    {
        let wanted = String::from_str(key);
        let mut i: usize = 0;
        while i < self.keys.len()
            invariant
                self.wf(),
                i <= self.keys@.len(),
                wanted@ == key@,
                forall|j: int| 0 <= j < i ==> self.keys@[j]@ != key@,
            decreases self.keys@.len() - i,
        {
            if self.keys[i] == wanted {
                proof {
                    let keys = string_views(self.keys@);
                    assert(keys[i as int] == key@);
                    Self::lemma_position(keys, i as int);
                }
                return Some(i);
            }
            i += 1;
        }
        proof {
            let keys = string_views(self.keys@);
            if keys.contains(key@) {
                let j = choose|j: int| 0 <= j < keys.len() && keys[j] == key@;
                assert(self.keys@[j]@ == key@);
            }
        }
        None
    }

    /// Whether the map holds `key`.
    pub fn contains(&self, key: &str) -> (held: bool)
        requires
            self.wf(),
        ensures
            held == self@.contains_key(key@),
    {
        self.find(key).is_some()
    }

    /// The value stored under `key`.
    pub fn get(&self, key: &str) -> (value: Option<&V>)
        requires
            self.wf(),
        ensures
            match value {
                Some(v) => self@.contains_key(key@) && *v == self@[key@],
                None => !self@.contains_key(key@),
            },
    {
        match self.find(key) {
            Some(i) => Some(&self.values[i]),
            None => None,
        }
    }

    /// Changing the value at one position changes the view at that key only.
    proof fn lemma_value_changed(before: Self, after: Self, i: int, value: V)
        requires
            before.wf(),
            0 <= i < before.keys@.len(),
            after.keys@ == before.keys@,
            after.values@ == before.values@.update(i, value),
        ensures
            after.wf(),
            after@ == before@.insert(before.keys@[i]@, value),
    {
        let keys = string_views(before.keys@);
        assert forall|k: Seq<char>| #[trigger] after@.contains_key(k) implies after@[k]
            == before@.insert(keys[i], value)[k] by {
            let p = position_of(keys, k);
            assert(0 <= p < keys.len() && keys[p] == k);
            Self::lemma_position(keys, i);
        }
        Self::lemma_position(keys, i);
        assert(after@ =~= before@.insert(keys[i], value));
    }

    /// The value stored under `key`, to be changed in place. The keys stay
    /// as they are.
    pub fn get_mut(&mut self, key: &str) -> (value: Option<&mut V>)
        requires
            old(self).wf(),
        ensures
            final(self).wf(),
            final(self).key_seq() == old(self).key_seq(),
            match value {
                Some(v) => old(self)@.contains_key(key@) && *v == old(self)@[key@] && final(self)@
                    == old(self)@.insert(key@, *final(v)),
                None => !old(self)@.contains_key(key@) && final(self)@ == old(self)@,
            },
    {
        let ghost before = *self;
        let ghost after = *final(self);
        match self.find(key) {
            Some(i) => {
                let slot = &mut self.values[i];
                proof {
                    Self::lemma_value_changed(before, after, i as int, *final(slot));
                }
                Some(slot)
            },
            None => None,
        }
    }

    /// Stores `value` under `key`, in place of what was stored there, which
    /// is returned.
    pub fn insert(&mut self, key: String, value: V) -> (previous: Option<V>)
        requires
            old(self).wf(),
        ensures
            final(self).wf(),
            final(self)@ == old(self)@.insert(key@, value),
            match previous {
                Some(v) => old(self)@.contains_key(key@) && v == old(self)@[key@],
                None => !old(self)@.contains_key(key@),
            },
    {
        match self.find(key.as_str()) {
            Some(i) => {
                let ghost before = *self;
                self.values.push(value);
                let previous = self.values.swap_remove(i);
                proof {
                    let keys = string_views(self.keys@);
                    assert(self.values@ =~= before.values@.update(i as int, value));
                    assert forall|k: Seq<char>| #[trigger] self@.contains_key(k) implies self@[k]
                        == before@.insert(key@, value)[k] by {
                        let p = position_of(keys, k);
                        assert(0 <= p < keys.len() && keys[p] == k);
                        Self::lemma_position(keys, i as int);
                    }
                    assert(self@ =~= before@.insert(key@, value));
                }
                Some(previous)
            },
            None => {
                let ghost before = *self;
                self.keys.push(key);
                self.values.push(value);
                proof {
                    let old_keys = string_views(before.keys@);
                    let keys = string_views(self.keys@);
                    let last = keys.len() - 1;
                    assert(keys =~= old_keys.push(key@));
                    assert forall|a: int, b: int| 0 <= a < b < keys.len() implies #[trigger] keys[a]
                        != #[trigger] keys[b] by {
                        if b == last {
                            if keys[a] == key@ {
                                assert(old_keys[a] == key@);
                                assert(old_keys.contains(key@));
                            }
                        } else {
                            assert(old_keys[a] != old_keys[b]);
                        }
                    }
                    assert forall|k: Seq<char>| keys.contains(k) <==> (old_keys.contains(k) || k
                        == key@) by {
                        if keys.contains(k) {
                            let p = choose|p: int| 0 <= p < keys.len() && keys[p] == k;
                            if p < last {
                                assert(old_keys[p] == k);
                            }
                        }
                        if old_keys.contains(k) {
                            let p = choose|p: int| 0 <= p < old_keys.len() && old_keys[p] == k;
                            assert(keys[p] == k);
                        }
                        if k == key@ {
                            assert(keys[last] == k);
                        }
                    }
                    assert forall|k: Seq<char>| #[trigger] self@.contains_key(k) implies self@[k]
                        == before@.insert(key@, value)[k] by {
                        let p = position_of(keys, k);
                        assert(0 <= p < keys.len() && keys[p] == k);
                        if k == key@ {
                            Self::lemma_position(keys, last);
                        } else {
                            assert(old_keys[p] == k);
                            Self::lemma_position(old_keys, p);
                        }
                    }
                    assert(self@ =~= before@.insert(key@, value));
                }
                None
            },
        }
    }

    /// Takes out what is stored under `key` and returns it.
    pub fn remove(&mut self, key: &str) -> (removed: Option<V>)
        requires
            old(self).wf(),
        ensures
            final(self).wf(),
            final(self)@ == old(self)@.remove(key@),
            match removed {
                Some(v) => old(self)@.contains_key(key@) && v == old(self)@[key@],
                None => !old(self)@.contains_key(key@),
            },
    {
        match self.find(key) {
            Some(i) => {
                let ghost before = *self;
                self.keys.remove(i);
                let removed = self.values.remove(i);
                proof {
                    let old_keys = string_views(before.keys@);
                    let keys = string_views(self.keys@);
                    assert(keys =~= old_keys.remove(i as int));
                    assert forall|a: int, b: int| 0 <= a < b < keys.len() implies #[trigger] keys[a]
                        != #[trigger] keys[b] by {
                        let first = if a < i { a } else { a + 1 };
                        let second = if b < i { b } else { b + 1 };
                        assert(old_keys[first] != old_keys[second]);
                    }
                    assert forall|k: Seq<char>| keys.contains(k) <==> (old_keys.contains(k) && k
                        != key@) by {
                        if keys.contains(k) {
                            let p = choose|p: int| 0 <= p < keys.len() && keys[p] == k;
                            let source = if p < i { p } else { p + 1 };
                            assert(old_keys[source] == k);
                            if k == key@ {
                                Self::lemma_position(old_keys, i as int);
                                Self::lemma_position(old_keys, source);
                            }
                        }
                        if old_keys.contains(k) && k != key@ {
                            let p = choose|p: int| 0 <= p < old_keys.len() && old_keys[p] == k;
                            let target = if p < i { p } else { p - 1 };
                            assert(keys[target] == k);
                        }
                    }
                    assert forall|k: Seq<char>| #[trigger] self@.contains_key(k) implies self@[k]
                        == before@.remove(key@)[k] by {
                        let p = position_of(keys, k);
                        assert(0 <= p < keys.len() && keys[p] == k);
                        let source = if p < i { p } else { p + 1 };
                        assert(old_keys[source] == k);
                        Self::lemma_position(old_keys, source);
                    }
                    assert(self@ =~= before@.remove(key@));
                }
                Some(removed)
            },
            None => {
                assert(self@ =~= self@.remove(key@));
                None
            },
        }
    }
}

} // verus!
