//! An ordered table from string keys to values.
//!
//! The entries are kept in a vector, in strictly ascending key order, so a key
//! occurs at most once and a walk by index visits the keys from the least to
//! the greatest. The table's view is the map from each key to its value.

use vstd::prelude::*;
use crate::text::{compare_text, lemma_text_precedes_asymmetric, lemma_text_precedes_transitive, text_precedes, TextOrder};

verus! {

/// Every key of the sequence precedes all that follow it.
pub open spec fn ascending(keys: Seq<Seq<char>>) -> bool {
    forall|i: int, j: int| 0 <= i < j < keys.len() ==> text_precedes(#[trigger] keys[i], #[trigger] keys[j])
}

/// In an ascending sequence a key is found at one index only.
pub proof fn lemma_ascending_index(keys: Seq<Seq<char>>, i: int)
    requires
        ascending(keys),
        0 <= i < keys.len(),
    ensures
        keys.index_of(keys[i]) == i,
{
    let j = keys.index_of(keys[i]);
    if j < i {
        lemma_text_precedes_asymmetric(keys[j], keys[i]);
    } else if i < j {
        lemma_text_precedes_asymmetric(keys[i], keys[j]);
    }
}

struct Entry<V> {
    key: String,
    value: V,
}

/// The keys of a sequence of entries, in its order.
spec fn keys_of<V>(entries: Seq<Entry<V>>) -> Seq<Seq<char>> {
    Seq::new(entries.len(), |i: int| entries[i].key@)
}

/// The map that a sequence of entries stands for: under each key, the value
/// of the entry that holds it.
spec fn map_of<V>(entries: Seq<Entry<V>>) -> Map<Seq<char>, V> {
    Map::new(
        |key: Seq<char>| keys_of(entries).contains(key),
        |key: Seq<char>| entries[keys_of(entries).index_of(key)].value,
    )
}

/// In ascending entries, the map holds each entry's value under its key.
proof fn lemma_map_of_entry<V>(entries: Seq<Entry<V>>, i: int)
    requires
        ascending(keys_of(entries)),
        0 <= i < entries.len(),
    ensures
        map_of(entries).contains_key(entries[i].key@),
        map_of(entries)[entries[i].key@] == entries[i].value,
{
    assert(keys_of(entries)[i] == entries[i].key@);
    lemma_ascending_index(keys_of(entries), i);
}

/// Replacing the entry at `at` by one with the same key keeps the order and
/// changes the map under that key only.
proof fn lemma_replace_entry<V>(entries: Seq<Entry<V>>, at: int, entry: Entry<V>)
    requires
        ascending(keys_of(entries)),
        0 <= at < entries.len(),
        entries[at].key@ == entry.key@,
    ensures
        ascending(keys_of(entries.update(at, entry))),
        map_of(entries.update(at, entry)) == map_of(entries).insert(entry.key@, entry.value),
{
    let replaced = entries.update(at, entry);
    assert(keys_of(replaced) =~= keys_of(entries));
    assert(keys_of(entries)[at] == entry.key@);
    assert forall|key: Seq<char>| #[trigger] map_of(replaced).contains_key(key) implies map_of(replaced)[key]
        == map_of(entries).insert(entry.key@, entry.value)[key] by {
        let i = keys_of(replaced).index_of(key);
        assert(0 <= i < replaced.len() && keys_of(replaced)[i] == key);
        lemma_map_of_entry(replaced, i);
        if i != at {
            lemma_map_of_entry(entries, i);
            lemma_ascending_index(keys_of(entries), i);
            lemma_ascending_index(keys_of(entries), at);
        }
    }
    assert(map_of(replaced) =~= map_of(entries).insert(entry.key@, entry.value));
}

/// Putting an entry with a new key at its place in the order keeps the order
/// and adds the key to the map, with every other key as it was.
proof fn lemma_insert_entry<V>(entries: Seq<Entry<V>>, at: int, entry: Entry<V>)
    requires
        ascending(keys_of(entries)),
        0 <= at <= entries.len(),
        forall|j: int| 0 <= j < at ==> text_precedes(keys_of(entries)[j], entry.key@),
        forall|j: int| at <= j < entries.len() ==> text_precedes(entry.key@, keys_of(entries)[j]),
    ensures
        ascending(keys_of(entries.insert(at, entry))),
        map_of(entries.insert(at, entry)) == map_of(entries).insert(entry.key@, entry.value),
{
    let grown = entries.insert(at, entry);
    let old_keys = keys_of(entries);
    let new_keys = keys_of(grown);
    assert(new_keys =~= old_keys.insert(at, entry.key@));
    // Where an index of the grown sequence comes from.
    let origin = |i: int| if i < at { i } else { i - 1 };
    assert forall|i: int, j: int| 0 <= i < j < new_keys.len() implies text_precedes(
        #[trigger] new_keys[i],
        #[trigger] new_keys[j],
    ) by {
        if i != at && j != at {
            assert(text_precedes(old_keys[origin(i)], old_keys[origin(j)]));
        } else if i == at {
            assert(new_keys[j] == old_keys[origin(j)]);
        } else {
            assert(new_keys[i] == old_keys[origin(i)]);
        }
    }
    let expected = map_of(entries).insert(entry.key@, entry.value);
    assert forall|key: Seq<char>| map_of(grown).contains_key(key) == expected.contains_key(key) by {
        if new_keys.contains(key) {
            let i = new_keys.index_of(key);
            assert(i != at ==> old_keys[origin(i)] == key);
        }
        if key == entry.key@ {
            assert(new_keys[at] == key);
        } else if old_keys.contains(key) {
            let i = old_keys.index_of(key);
            assert(new_keys[if i < at { i } else { i + 1 }] == key);
        }
    }
    assert forall|key: Seq<char>| #[trigger] map_of(grown).contains_key(key) implies map_of(grown)[key]
        == expected[key] by {
        let i = new_keys.index_of(key);
        assert(0 <= i < grown.len() && new_keys[i] == key);
        lemma_map_of_entry(grown, i);
        if i != at {
            assert(grown[i] == entries[origin(i)]);
            lemma_map_of_entry(entries, origin(i));
        }
    }
    assert(map_of(grown) =~= expected);
}

/// A table from string keys to values of type `V`, walked in key order.
pub struct OrderedTable<V> {
    entries: Vec<Entry<V>>,
}

impl<V> View for OrderedTable<V> {
    type V = Map<Seq<char>, V>;

    closed spec fn view(&self) -> Map<Seq<char>, V> {
        map_of(self.entries@)
    }
}

impl<V> OrderedTable<V> {
    #[verifier::type_invariant]
    spec fn keys_ascend(self) -> bool {
        ascending(self.ordered_keys())
    }

    /// The keys of the table, in the order in which it is walked.
    pub closed spec fn ordered_keys(&self) -> Seq<Seq<char>> {
        keys_of(self.entries@)
    }

    /// What ties the walk to the view: the keys ascend, and they are the
    /// keys of the map.
    pub open spec fn walk_matches_view(&self) -> bool {
        &&& ascending(self.ordered_keys())
        &&& forall|k: Seq<char>| self@.contains_key(k) <==> self.ordered_keys().contains(k)
    }

    /// A table holds finitely many keys.
    pub proof fn lemma_view_finite(&self)
        ensures
            self@.dom().finite(),
    {
        assert(self@.dom() =~= self.ordered_keys().to_set());
    }

    /// An empty table.
    pub fn new() -> (table: Self)
        ensures
            table@ == Map::<Seq<char>, V>::empty(),
            table.ordered_keys() == Seq::<Seq<char>>::empty(),
    {
        OrderedTable { entries: Vec::new() }
    }

    /// The number of entries.
    pub fn len(&self) -> (n: usize)
        ensures
            n == self.ordered_keys().len(),
            n == self@.dom().len(),
            self@.dom().finite(),
            self.walk_matches_view(),
    {
        proof {
            use_type_invariant(self);
            let keys = self.ordered_keys();
            assert forall|i: int, j: int| 0 <= i < j < keys.len() implies keys[i] != keys[j] by {
                lemma_text_precedes_asymmetric(keys[i], keys[j]);
            }
            keys.unique_seq_to_set();
            assert(self@.dom() =~= keys.to_set());
        }
        self.entries.len()
    }

    /// The key at position `i` of the walk.
    pub fn key_at(&self, i: usize) -> (key: &String)
        requires
            i < self.ordered_keys().len(),
        ensures
            key@ == self.ordered_keys()[i as int],
            self@.contains_key(key@),
    {
        proof {
            use_type_invariant(self);
            lemma_map_of_entry(self.entries@, i as int);
        }
        &self.entries[i].key
    }

    /// The value stored under the key at position `i` of the walk.
    pub fn value_at(&self, i: usize) -> (value: &V)
        requires
            i < self.ordered_keys().len(),
        ensures
            self@.contains_key(self.ordered_keys()[i as int]),
            *value == self@[self.ordered_keys()[i as int]],
    {
        proof {
            use_type_invariant(self);
            lemma_map_of_entry(self.entries@, i as int);
        }
        &self.entries[i].value
    }

    /// The position of `key` in the walk and `true`, or else `false` and the
    /// position at which it would have to stand: every key before that
    /// position precedes `key`, and `key` precedes every key from there on.
    fn locate(&self, key: &str) -> (r: (usize, bool))
        ensures
            r.0 <= self.ordered_keys().len(),
            r.1 == self.ordered_keys().contains(key@),
            r.1 ==> r.0 < self.ordered_keys().len() && self.ordered_keys()[r.0 as int] == key@,
            forall|j: int| 0 <= j < r.0 ==> text_precedes(self.ordered_keys()[j], key@),
            !r.1 ==> forall|j: int|
                r.0 <= j < self.ordered_keys().len() ==> text_precedes(key@, self.ordered_keys()[j]),
    {
        proof {
            use_type_invariant(self);
        }
        let ghost keys = self.ordered_keys();
        let n = self.entries.len();
        let mut i: usize = 0;
        while i < n
            invariant
                n == self.entries.len(),
                keys == self.ordered_keys(),
                ascending(keys),
                i <= n,
                forall|j: int| 0 <= j < i ==> text_precedes(keys[j], key@),
            decreases n - i,
        {
            match compare_text(self.entries[i].key.as_str(), key) {
                TextOrder::Before => {},
                TextOrder::Same => {
                    assert(keys[i as int] == key@);
                    return (i, true);
                },
                TextOrder::After => {
                    proof {
                        // The key stands before this entry, so before all that follow,
                        // and after all that came: it is none of them.
                        assert forall|j: int| i <= j < keys.len() implies text_precedes(key@, keys[j]) by {
                            if i < j {
                                lemma_text_precedes_transitive(key@, keys[i as int], keys[j]);
                            }
                        }
                        assert forall|j: int| 0 <= j < keys.len() implies keys[j] != key@ by {
                            if j < i {
                                lemma_text_precedes_asymmetric(keys[j], key@);
                            } else {
                                lemma_text_precedes_asymmetric(key@, keys[j]);
                            }
                        }
                    }
                    return (i, false);
                },
            }
            i = i + 1;
        }
        proof {
            assert forall|j: int| 0 <= j < keys.len() implies keys[j] != key@ by {
                lemma_text_precedes_asymmetric(keys[j], key@);
            }
        }
        (n, false)
    }

    /// The value stored under `key`, if there is one.
    pub fn get(&self, key: &str) -> (found: Option<&V>)
        ensures
            match found {
                Some(value) => self@.contains_key(key@) && *value == self@[key@],
                None => !self@.contains_key(key@),
            },
    {
        let (at, present) = self.locate(key);
        if present {
            proof {
                use_type_invariant(self);
                lemma_map_of_entry(self.entries@, at as int);
            }
            Some(&self.entries[at].value)
        } else {
            None
        }
    }

    /// Stores `value` under `key`, in place of what was stored there before.
    /// Every other entry stays as it was.
    pub fn insert(&mut self, key: String, value: V)
        ensures
            final(self)@ == old(self)@.insert(key@, value),
    {
        let (at, present) = self.locate(key.as_str());
        let entry = Entry { key, value };
        proof {
            use_type_invariant(&*self);
            if present {
                lemma_replace_entry(self.entries@, at as int, entry);
            } else {
                lemma_insert_entry(self.entries@, at as int, entry);
            }
        }
        // The entries leave the table while they change, and come back in order.
        let mut entries: Vec<Entry<V>> = Vec::new();
        core::mem::swap(&mut self.entries, &mut entries);
        if present {
            entries.set(at, entry);
        } else {
            entries.insert(at, entry);
        }
        core::mem::swap(&mut self.entries, &mut entries);
    }
}

} // verus!
