//! A map from text keys to values that keeps its entries in key order.

use crate::text::{
    lemma_str_lt_irreflexive, lemma_str_lt_total, lemma_str_lt_transitive, str_equal, str_less,
    str_lt,
};
use vstd::prelude::*;

verus! {

/// Every key comes strictly before all keys after it.
pub open spec fn keys_sorted(keys: Seq<Seq<char>>) -> bool {
    forall|i: int, j: int|
        0 <= i < j < keys.len() ==> str_lt(#[trigger] keys[i], #[trigger] keys[j])
}

/// Where `key` stands among sorted `keys`: the index of the first key that
/// does not come before it.
pub open spec fn insert_position(keys: Seq<Seq<char>>, key: Seq<char>) -> int
    decreases keys.len(),
{
    if keys.len() == 0 {
        0
    } else if str_lt(keys.last(), key) {
        keys.len() as int
    } else {
        insert_position(keys.drop_last(), key)
    }
}

/// The keys after `key` has been entered.
pub open spec fn keys_with(keys: Seq<Seq<char>>, key: Seq<char>) -> Seq<Seq<char>> {
    let p = insert_position(keys, key);
    if p < keys.len() && keys[p] == key {
        keys
    } else {
        keys.insert(p, key)
    }
}

/// The values after `value` has been entered under `key`: a value already
/// held under that key is replaced.
pub open spec fn values_with<T>(
    keys: Seq<Seq<char>>,
    values: Seq<T>,
    key: Seq<char>,
    value: T,
) -> Seq<T> {
    let p = insert_position(keys, key);
    if p < keys.len() && keys[p] == key {
        values.update(p, value)
    } else {
        values.insert(p, value)
    }
}

/// The map that parallel sequences of keys and values stand for.
pub open spec fn seq_map<T>(keys: Seq<Seq<char>>, values: Seq<T>) -> Map<Seq<char>, T> {
    Map::new(|k: Seq<char>| keys.contains(k), |k: Seq<char>| values[keys.index_of(k)])
}

/// Sorted keys hold no key twice.
pub proof fn lemma_sorted_keys_distinct(keys: Seq<Seq<char>>, i: int, j: int)
    requires
        keys_sorted(keys),
        0 <= i < keys.len(),
        0 <= j < keys.len(),
        keys[i] == keys[j],
    ensures
        i == j,
{
    lemma_str_lt_irreflexive(keys[i]);
}

/// Among sorted keys the key at index `i` is found at index `i`.
pub proof fn lemma_index_of_sorted(keys: Seq<Seq<char>>, i: int)
    requires
        keys_sorted(keys),
        0 <= i < keys.len(),
    ensures
        keys.contains(keys[i]),
        keys.index_of(keys[i]) == i,
{
    let j = keys.index_of(keys[i]);
    lemma_sorted_keys_distinct(keys, i, j);
}

/// The position found by scanning sorted keys from the front.
pub proof fn lemma_insert_position(keys: Seq<Seq<char>>, key: Seq<char>, p: int)
    requires
        keys_sorted(keys),
        0 <= p <= keys.len(),
        forall|i: int| 0 <= i < p ==> str_lt(#[trigger] keys[i], key),
        p < keys.len() ==> !str_lt(keys[p], key),
    ensures
        insert_position(keys, key) == p,
    decreases keys.len(),
{
    if keys.len() > 0 {
        let last = keys.len() - 1;
        if str_lt(keys.last(), key) {
            if p < keys.len() {
                if p < last {
                    lemma_str_lt_transitive(keys[p], keys[last], key);
                }
            }
        } else {
            let front = keys.drop_last();
            assert forall|i: int, j: int| 0 <= i < j < front.len() implies str_lt(
                #[trigger] front[i],
                #[trigger] front[j],
            ) by {
                assert(front[i] == keys[i] && front[j] == keys[j]);
            }
            assert forall|i: int| 0 <= i < p implies str_lt(#[trigger] front[i], key) by {
                assert(front[i] == keys[i]);
            }
            lemma_insert_position(front, key, p);
        }
    }
}

/// A key that comes after every key held is entered at the end.
pub proof fn lemma_entered_at_end<T>(
    keys: Seq<Seq<char>>,
    values: Seq<T>,
    key: Seq<char>,
    value: T,
)
    requires
        keys.len() == values.len(),
        forall|i: int| 0 <= i < keys.len() ==> str_lt(#[trigger] keys[i], key),
    ensures
        insert_position(keys, key) == keys.len(),
        keys_with(keys, key) == keys.push(key),
        values_with(keys, values, key, value) == values.push(value),
{
    assert(keys.insert(keys.len() as int, key) =~= keys.push(key));
    assert(values.insert(keys.len() as int, value) =~= values.push(value));
}

/// What entering a key does to sorted keys and to the map they stand for.
pub proof fn lemma_entered<T>(keys: Seq<Seq<char>>, values: Seq<T>, key: Seq<char>, value: T)
    requires
        keys_sorted(keys),
        keys.len() == values.len(),
    ensures
        keys_sorted(keys_with(keys, key)),
        keys_with(keys, key).len() == values_with(keys, values, key, value).len(),
        seq_map(keys_with(keys, key), values_with(keys, values, key, value)) == seq_map(
            keys,
            values,
        ).insert(key, value),
{
    let p = insert_position(keys, key);
    lemma_position_bounds(keys, key);
    let keys2 = keys_with(keys, key);
    let values2 = values_with(keys, values, key, value);
    if p < keys.len() && keys[p] == key {
        assert forall|k: Seq<char>| #[trigger] keys2.contains(k) implies values2[keys2.index_of(k)]
            == seq_map(keys, values).insert(key, value)[k] by {
            if k == key {
                lemma_sorted_keys_distinct(keys, keys.index_of(k), p);
            }
        }
    } else {
        assert forall|i: int, j: int| 0 <= i < j < keys2.len() implies str_lt(
            #[trigger] keys2[i],
            #[trigger] keys2[j],
        ) by {
            if i < p && p < j {
                assert(keys2[j] == keys[j - 1]);
            } else if i == p {
                if j - 1 > p {
                    lemma_str_lt_transitive(key, keys[p], keys[j - 1]);
                }
            } else if p < i {
                assert(keys2[i] == keys[i - 1] && keys2[j] == keys[j - 1]);
            }
        }
        assert(keys2[p] == key);
        assert forall|k: Seq<char>| keys2.contains(k) <==> (k == key || keys.contains(k)) by {
            if keys2.contains(k) {
                let i = keys2.index_of(k);
                if i < p {
                    assert(keys[i] == k);
                } else if i > p {
                    assert(keys[i - 1] == k);
                }
            }
            if keys.contains(k) {
                let i = keys.index_of(k);
                if i < p {
                    assert(keys2[i] == k);
                } else {
                    assert(keys2[i + 1] == k);
                }
            }
        }
        assert forall|k: Seq<char>| #[trigger] keys2.contains(k) implies values2[keys2.index_of(k)]
            == seq_map(keys, values).insert(key, value)[k] by {
            let i2 = keys2.index_of(k);
            if k == key {
                lemma_sorted_keys_distinct(keys2, i2, p);
            } else {
                let i = keys.index_of(k);
                if i < p {
                    lemma_sorted_keys_distinct(keys2, i2, i);
                } else {
                    lemma_sorted_keys_distinct(keys2, i2, i + 1);
                }
            }
        }
    }
}

/// A prefix of sorted keys is sorted.
pub proof fn lemma_sorted_prefix(keys: Seq<Seq<char>>, n: int)
    requires
        keys_sorted(keys),
        0 <= n <= keys.len(),
    ensures
        keys_sorted(keys.take(n)),
{
    assert forall|i: int, j: int| 0 <= i < j < n implies str_lt(
        #[trigger] keys.take(n)[i],
        #[trigger] keys.take(n)[j],
    ) by {
        assert(keys.take(n)[i] == keys[i] && keys.take(n)[j] == keys[j]);
    }
}

/// The map of the first `n + 1` entries is the map of the first `n` with
/// the next entry added under a key that it does not hold yet.
pub proof fn lemma_prefix_map_step<T>(keys: Seq<Seq<char>>, values: Seq<T>, n: int)
    requires
        keys_sorted(keys),
        keys.len() == values.len(),
        0 <= n < keys.len(),
    ensures
        !seq_map(keys.take(n), values.take(n)).contains_key(keys[n]),
        seq_map(keys.take(n + 1), values.take(n + 1)) == seq_map(
            keys.take(n),
            values.take(n),
        ).insert(keys[n], values[n]),
{
    let front = keys.take(n);
    lemma_sorted_prefix(keys, n);
    assert forall|i: int| 0 <= i < front.len() implies str_lt(#[trigger] front[i], keys[n]) by {
        assert(front[i] == keys[i]);
    }
    lemma_entered_at_end(front, values.take(n), keys[n], values[n]);
    lemma_entered(front, values.take(n), keys[n], values[n]);
    assert(keys.take(n + 1) =~= front.push(keys[n]));
    if front.contains(keys[n]) {
        let i = front.index_of(keys[n]);
        lemma_str_lt_irreflexive(keys[n]);
    }
}

/// The insert position splits sorted keys into those before `key` and the rest.
pub proof fn lemma_position_bounds(keys: Seq<Seq<char>>, key: Seq<char>)
    requires
        keys_sorted(keys),
    ensures
        0 <= insert_position(keys, key) <= keys.len(),
        forall|i: int| 0 <= i < insert_position(keys, key) ==> str_lt(#[trigger] keys[i], key),
        forall|i: int|
            insert_position(keys, key) <= i < keys.len() ==> !str_lt(#[trigger] keys[i], key),
        forall|i: int|
            insert_position(keys, key) <= i < keys.len() && keys[insert_position(keys, key)] != key
                ==> str_lt(key, #[trigger] keys[i]),
    decreases keys.len(),
{
    let p = insert_position(keys, key);
    if keys.len() > 0 {
        let last = keys.len() - 1;
        if str_lt(keys.last(), key) {
            assert forall|i: int| 0 <= i < p implies str_lt(#[trigger] keys[i], key) by {
                if i < last {
                    lemma_str_lt_transitive(keys[i], keys[last], key);
                }
            }
        } else {
            let front = keys.drop_last();
            assert forall|i: int, j: int| 0 <= i < j < front.len() implies str_lt(
                #[trigger] front[i],
                #[trigger] front[j],
            ) by {
                assert(front[i] == keys[i] && front[j] == keys[j]);
            }
            lemma_position_bounds(front, key);
            assert forall|i: int| 0 <= i < p implies str_lt(#[trigger] keys[i], key) by {
                assert(front[i] == keys[i]);
            }
            assert forall|i: int| p <= i < keys.len() implies !str_lt(#[trigger] keys[i], key) by {
                if i < last {
                    assert(front[i] == keys[i]);
                }
            }
            assert forall|i: int| p <= i < keys.len() && keys[p] != key implies str_lt(
                key,
                #[trigger] keys[i],
            ) by {
                if i < last {
                    assert(front[i] == keys[i]);
                } else {
                    if !str_lt(key, keys[i]) {
                        lemma_str_lt_total(key, keys[i]);
                        if p < last {
                            assert(front[p] == keys[p]);
                        }
                    }
                }
            }
        }
    }
}

/// Entries under text keys, held in key order, no key twice.
#[derive(Debug)]
pub struct StrMap<V> {
    entries: Vec<(String, V)>,
}

impl<V> StrMap<V> {
    /// The keys, in order.
    pub closed spec fn keys(&self) -> Seq<Seq<char>> {
        Seq::new(self.entries@.len(), |i: int| self.entries@[i].0@)
    }

    /// The values, in the order of their keys.
    pub closed spec fn values(&self) -> Seq<V> {
        Seq::new(self.entries@.len(), |i: int| self.entries@[i].1)
    }

    /// The map from each key to its value.
    pub open spec fn map(&self) -> Map<Seq<char>, V> {
        seq_map(self.keys(), self.values())
    }

    #[verifier::type_invariant]
    spec fn inv(&self) -> bool {
        keys_sorted(self.keys())
    }

    /// An empty map.
    pub fn new() -> (m: Self)
        ensures
            m.keys() == Seq::<Seq<char>>::empty(),
            m.values() == Seq::<V>::empty(),
            m.map() == Map::<Seq<char>, V>::empty(),
    {
        let m = StrMap { entries: Vec::new() };
        assert(m.keys() =~= Seq::<Seq<char>>::empty());
        assert(m.values() =~= Seq::<V>::empty());
        m
    }

    /// The number of entries. The keys are in strict order.
    pub fn len(&self) -> (n: usize)
        ensures
            n == self.keys().len(),
            n == self.values().len(),
            keys_sorted(self.keys()),
            n == 0 <==> self.map() == Map::<Seq<char>, V>::empty(),
    {
        proof {
            use_type_invariant(self);
            if self.keys().len() > 0 {
                assert(self.map().contains_key(self.keys()[0]));
            } else {
                assert(self.map() =~= Map::<Seq<char>, V>::empty());
            }
        }
        self.entries.len()
    }

    /// Tells whether the map holds no entry.
    pub fn is_empty(&self) -> (empty: bool)
        ensures
            empty == (self.keys().len() == 0),
            empty == (self.map() == Map::<Seq<char>, V>::empty()),
    {
        self.len() == 0
    }

    /// The key of the entry at `index`, counted in key order.
    pub fn key_at(&self, index: usize) -> (key: &String)
        requires
            index < self.keys().len(),
        ensures
            key@ == self.keys()[index as int],
            self.map().contains_key(key@),
    {
        proof {
            use_type_invariant(self);
            lemma_index_of_sorted(self.keys(), index as int);
        }
        &self.entries[index].0
    }

    /// The value of the entry at `index`, counted in key order.
    pub fn value_at(&self, index: usize) -> (value: &V)
        requires
            index < self.values().len(),
        ensures
            *value == self.values()[index as int],
            self.map()[self.keys()[index as int]] == *value,
    {
        proof {
            use_type_invariant(self);
            lemma_index_of_sorted(self.keys(), index as int);
        }
        &self.entries[index].1
    }

    /// The index of the entry under `key`, if there is one.
    pub fn find(&self, key: &str) -> (found: Option<usize>)
        ensures
            match found {
                Some(index) => index < self.keys().len() && index < self.values().len()
                    && self.keys()[index as int] == key@,
                None => !self.keys().contains(key@),
            },
    {
        let mut i: usize = 0;
        while i < self.entries.len()
            invariant
                i <= self.entries@.len(),
                forall|j: int| 0 <= j < i ==> self.keys()[j] != key@,
            decreases self.entries@.len() - i,
        {
            if str_equal(self.entries[i].0.as_str(), key) {
                return Some(i);
            }
            i = i + 1;
        }
        None
    }

    /// The value under `key`, if there is one.
    pub fn get(&self, key: &str) -> (value: Option<&V>)
        ensures
            match value {
                Some(v) => self.map().contains_key(key@) && *v == self.map()[key@],
                None => !self.map().contains_key(key@),
            },
    {
        match self.find(key) {
            Some(index) => {
                proof {
                    use_type_invariant(self);
                    lemma_index_of_sorted(self.keys(), index as int);
                }
                Some(&self.entries[index].1)
            },
            None => None,
        }
    }

    /// Tells whether there is an entry under `key`.
    pub fn contains_key(&self, key: &str) -> (held: bool)
        ensures
            held == self.map().contains_key(key@),
    {
        self.find(key).is_some()
    }

    /// Enters `value` under `key`. A value already held under that key is
    /// replaced; a new key takes its place in key order.
    pub fn insert(&mut self, key: String, value: V)
        ensures
            final(self).keys() == keys_with(old(self).keys(), key@),
            final(self).values() == values_with(old(self).keys(), old(self).values(), key@, value),
            final(self).map() == old(self).map().insert(key@, value),
            keys_sorted(final(self).keys()),
    {
        proof {
            use_type_invariant(&*self);
        }
        let ghost keys = self.keys();
        let ghost values = self.values();
        let mut p: usize = 0;
        while p < self.entries.len() && str_less(self.entries[p].0.as_str(), key.as_str())
            invariant
                p <= self.entries@.len(),
                self.keys() == keys,
                forall|i: int| 0 <= i < p ==> str_lt(#[trigger] keys[i], key@),
            decreases self.entries@.len() - p,
        {
            p = p + 1;
        }
        proof {
            lemma_insert_position(keys, key@, p as int);
            lemma_entered(keys, values, key@, value);
        }
        let mut entries: Vec<(String, V)> = Vec::new();
        std::mem::swap(&mut entries, &mut self.entries);
        if p < entries.len() && !str_less(key.as_str(), entries[p].0.as_str()) {
            proof {
                lemma_str_lt_total(key@, keys[p as int]);
            }
            entries.set(p, (key, value));
        } else {
            entries.insert(p, (key, value));
        }
        let ghost keys2 = Seq::new(entries@.len(), |i: int| entries@[i].0@);
        let ghost values2 = Seq::new(entries@.len(), |i: int| entries@[i].1);
        assert(keys2 =~= keys_with(keys, key@));
        assert(values2 =~= values_with(keys, values, key@, value));
        self.entries = entries;
    }
}

impl<V: View> StrMap<V> {
    /// The entries in key order, each value by its view.
    pub open spec fn entries(&self) -> Seq<(Seq<char>, V::V)> {
        Seq::new(self.keys().len(), |i: int| (self.keys()[i], self.values()[i]@))
    }
}

impl<V: Clone> Clone for StrMap<V> {
    /// A copy under the same keys, each value a clone of the value that the
    /// map holds under the key.
    fn clone(&self) -> (copy: Self)
        ensures
            copy.keys() == self.keys(),
            copy.values().len() == self.values().len(),
            forall|i: int|
                0 <= i < self.values().len() ==> cloned::<V>(
                    #[trigger] self.values()[i],
                    copy.values()[i],
                ),
    {
        proof {
            use_type_invariant(self);
        }
        let mut entries: Vec<(String, V)> = Vec::new();
        let mut i: usize = 0;
        while i < self.entries.len()
            invariant
                i <= self.entries@.len(),
                entries@.len() == i,
                forall|j: int| 0 <= j < i ==> (#[trigger] entries@[j]).0@ == self.entries@[j].0@,
                forall|j: int|
                    0 <= j < i ==> cloned::<V>(self.entries@[j].1, (#[trigger] entries@[j]).1),
            decreases self.entries@.len() - i,
        {
            entries.push((self.entries[i].0.clone(), self.entries[i].1.clone()));
            i = i + 1;
        }
        let ghost keys = Seq::new(entries@.len(), |j: int| entries@[j].0@);
        assert(keys =~= self.keys());
        let copy = StrMap { entries };
        assert forall|i: int| 0 <= i < self.values().len() implies cloned::<V>(
            #[trigger] self.values()[i],
            copy.values()[i],
        ) by {
            assert(cloned::<V>(self.entries@[i].1, copy.entries@[i].1));
        }
        copy
    }
}

} // verus!
