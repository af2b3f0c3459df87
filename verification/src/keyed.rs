//! Values kept under distinct string keys, in the order in which the keys
//! first came: two lists of one length, the keys and the values.

use crate::text::strings_view;
use vstd::prelude::*;

verus! {

/// The keys are distinct and each has its value.
pub open spec fn well_keyed<V>(keys: Seq<Seq<char>>, values: Seq<V>) -> bool {
    keys.no_duplicates() && keys.len() == values.len()
}

/// The map from each key to the value at its place.
pub open spec fn keyed<V>(keys: Seq<Seq<char>>, values: Seq<V>) -> Map<Seq<char>, V> {
    Map::new(|k: Seq<char>| keys.contains(k), |k: Seq<char>| values[keys.index_of(k)])
}

/// The key at place `i` maps to the value at place `i`.
pub proof fn lemma_keyed_at<V>(keys: Seq<Seq<char>>, values: Seq<V>, i: int)
    requires
        well_keyed(keys, values),
        0 <= i < keys.len(),
    ensures
        keyed(keys, values).contains_key(keys[i]),
        keyed(keys, values)[keys[i]] == values[i],
        keys.index_of(keys[i]) == i,
{
    let j = keys.index_of(keys[i]);
    assert(keys.contains(keys[i]));
    assert(0 <= j < keys.len() && keys[j] == keys[i]);
}

/// A key of the map stands at some place of the list, and what it maps to
/// stands at the same place.
pub proof fn lemma_keyed_place<V>(keys: Seq<Seq<char>>, values: Seq<V>, k: Seq<char>) -> (i: int)
    requires
        well_keyed(keys, values),
        keyed(keys, values).contains_key(k),
    ensures
        0 <= i < keys.len(),
        keys[i] == k,
        keyed(keys, values)[k] == values[i],
{
    keys.index_of(k)
}

/// Replacing the value at place `i` replaces what the key at `i` maps to.
pub proof fn lemma_keyed_update<V>(keys: Seq<Seq<char>>, values: Seq<V>, i: int, v: V)
    requires
        well_keyed(keys, values),
        0 <= i < keys.len(),
    ensures
        keyed(keys, values.update(i, v)) == keyed(keys, values).insert(keys[i], v),
{
    let before = keyed(keys, values);
    let after = keyed(keys, values.update(i, v));
    assert forall|k: Seq<char>| #[trigger] after.contains_key(k) implies after[k] == before.insert(
        keys[i],
        v,
    )[k] by {
        let j = keys.index_of(k);
        lemma_keyed_at(keys, values, j);
    }
    assert(keys.contains(keys[i]));
    assert(after =~= before.insert(keys[i], v));
}

/// Appending a key that is new, with its value, adds that pair to the map.
pub proof fn lemma_keyed_push<V>(keys: Seq<Seq<char>>, values: Seq<V>, k: Seq<char>, v: V)
    requires
        well_keyed(keys, values),
        !keys.contains(k),
    ensures
        well_keyed(keys.push(k), values.push(v)),
        keyed(keys.push(k), values.push(v)) == keyed(keys, values).insert(k, v),
{
    let keys2 = keys.push(k);
    let values2 = values.push(v);
    assert(keys2.no_duplicates()) by {
        assert forall|a: int, b: int|
            0 <= a < keys2.len() && 0 <= b < keys2.len() && a != b implies keys2[a] != keys2[b] by {
            if a < keys.len() && b < keys.len() {
            } else if a < keys.len() {
                assert(keys[a] == keys2[a]);
            } else {
                assert(keys[b] == keys2[b]);
            }
        }
    }
    let before = keyed(keys, values);
    let after = keyed(keys2, values2);
    assert forall|q: Seq<char>| after.contains_key(q) <==> before.insert(k, v).contains_key(q) by {
        if keys2.contains(q) {
            let j = choose|j: int| 0 <= j < keys2.len() && keys2[j] == q;
            if j < keys.len() {
                assert(keys[j] == q);
            }
        }
        if keys.contains(q) {
            let j = choose|j: int| 0 <= j < keys.len() && keys[j] == q;
            assert(keys2[j] == q);
        }
        if q == k {
            assert(keys2[keys.len() as int] == k);
        }
    }
    assert forall|q: Seq<char>| #[trigger] after.contains_key(q) implies after[q] == before.insert(
        k,
        v,
    )[q] by {
        let j = keys2.index_of(q);
        lemma_keyed_at(keys2, values2, j);
        if j < keys.len() {
            assert(keys[j] == q);
            lemma_keyed_at(keys, values, j);
        }
    }
    assert(after =~= before.insert(k, v));
}

/// The place of `key` among `keys`, if it is there.
pub fn find_key(keys: &Vec<String>, key: &str) -> (found: Option<usize>)
    ensures
        match found {
            Some(i) => i < keys.len() && keys[i as int]@ == key@,
            None => !strings_view(keys@).contains(key@),
        },
{
    let wanted = key.to_owned();
    let mut i: usize = 0;
    while i < keys.len()
        invariant
            i <= keys.len(),
            wanted@ == key@,
            forall|j: int| 0 <= j < i ==> keys[j]@ != key@,
        decreases keys.len() - i,
    {
        if keys[i] == wanted {
            return Some(i);
        }
        i += 1;
    }
    None
}

/// Values under distinct string keys, in the order in which the keys first
/// came.
pub struct KeyedList<V> {
    pub keys: Vec<String>,
    pub values: Vec<V>,
}

impl<V> KeyedList<V> {
    /// The keys as sequences of characters, in order.
    pub open spec fn key_views(&self) -> Seq<Seq<char>> {
        strings_view(self.keys@)
    }

    /// The keys are distinct and each has its value.
    pub open spec fn wf(&self) -> bool {
        well_keyed(self.key_views(), self.values@)
    }

    /// The map from each key to its value.
    pub open spec fn map(&self) -> Map<Seq<char>, V> {
        keyed(self.key_views(), self.values@)
    }

    /// The empty list.
    pub fn new() -> (list: Self)
        ensures
            list.wf(),
            list.keys@.len() == 0,
            list.values@.len() == 0,
    {
        KeyedList { keys: Vec::new(), values: Vec::new() }
    }

    /// The place of `key`, if the list has it.
    pub fn find(&self, key: &str) -> (found: Option<usize>)
        requires
            self.wf(),
        ensures
            match found {
                Some(i) => i < self.keys.len() && self.key_views()[i as int] == key@
                    && self.map().contains_key(key@) && self.map()[key@] == self.values[i as int],
                None => !self.key_views().contains(key@) && !self.map().contains_key(key@),
            },
    {
        let found = find_key(&self.keys, key);
        proof {
            if let Some(i) = found {
                lemma_keyed_at(self.key_views(), self.values@, i as int);
            }
        }
        found
    }

    /// Puts `value` under `key`: in the place of the value that `key` had, or
    /// at the end where `key` is new.
    pub fn insert(&mut self, key: String, value: V)
        requires
            old(self).wf(),
        ensures
            final(self).wf(),
            final(self).map() == old(self).map().insert(key@, value),
            old(self).key_views().contains(key@) ==> {
                &&& final(self).key_views() == old(self).key_views()
                &&& final(self).values@ == old(self).values@.update(
                    old(self).key_views().index_of(key@),
                    value,
                )
            },
            !old(self).key_views().contains(key@) ==> {
                &&& final(self).key_views() == old(self).key_views().push(key@)
                &&& final(self).values@ == old(self).values@.push(value)
            },
    {
        match find_key(&self.keys, key.as_str()) {
            Some(i) => {
                proof {
                    lemma_keyed_at(self.key_views(), self.values@, i as int);
                    lemma_keyed_update(self.key_views(), self.values@, i as int, value);
                }
                self.values[i] = value;
            },
            None => {
                proof {
                    lemma_keyed_push(self.key_views(), self.values@, key@, value);
                    assert(strings_view(self.keys@.push(key)) =~= self.key_views().push(key@));
                }
                self.keys.push(key);
                self.values.push(value);
            },
        }
    }
}

} // verus!
