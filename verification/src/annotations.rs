//! Open annotation maps: JSON values under string keys.

use crate::text::same_text;
use vstd::prelude::*;

verus! {

/// The keys of a list of entries, in order.
pub open spec fn entry_keys(entries: Seq<(String, serde_json::Value)>) -> Seq<Seq<char>> {
    Seq::new(entries.len(), |i: int| entries[i].0@)
}

/// A map from string keys to JSON values.
///
/// The entries are kept in the order in which their keys first came; no key
/// occurs twice.
#[derive(Debug)]
pub struct Annotations {
    entries: Vec<(String, serde_json::Value)>,
}

/// The map that a list of entries with distinct keys stands for.
pub open spec fn entries_map(entries: Seq<(String, serde_json::Value)>) -> Map<
    Seq<char>,
    serde_json::Value,
> {
    let keys = entry_keys(entries);
    Map::new(|key: Seq<char>| keys.contains(key), |key: Seq<char>| entries[keys.index_of(key)].1)
}

/// A list of entries with distinct keys and its map hold the same pairs.
pub proof fn lemma_entries_map(entries: Seq<(String, serde_json::Value)>)
    requires
        entry_keys(entries).no_duplicates(),
    ensures
        entries_map(entries).dom().finite(),
        entries_map(entries).len() == entries.len(),
        forall|i: int|
            0 <= i < entries.len() ==> entries_map(entries).contains_key(#[trigger] entries[i].0@)
                && entries_map(entries)[entries[i].0@] == entries[i].1,
        forall|key: Seq<char>| #[trigger]
            entries_map(entries).contains_key(key) ==> exists|i: int|
                0 <= i < entries.len() && #[trigger] entries[i].0@ == key,
{
    let keys = entry_keys(entries);
    let map = entries_map(entries);
    keys.unique_seq_to_set();
    assert(map.dom() =~= keys.to_set());
    assert forall|i: int| 0 <= i < entries.len() implies map.contains_key(#[trigger] entries[i].0@)
        && map[entries[i].0@] == entries[i].1 by {
        assert(keys[i] == entries[i].0@);
        assert(keys.contains(keys[i]));
        let j = keys.index_of(keys[i]);
        assert(keys[j] == keys[i]);
    }
    assert forall|key: Seq<char>| #[trigger] map.contains_key(key) implies exists|i: int|
        0 <= i < entries.len() && #[trigger] entries[i].0@ == key by {
        let j = keys.index_of(key);
        assert(entries[j].0@ == key);
    }
}

impl View for Annotations {
    type V = Map<Seq<char>, serde_json::Value>;

    closed spec fn view(&self) -> Map<Seq<char>, serde_json::Value> {
        entries_map(self.entries@)
    }
}

impl Annotations {
    #[verifier::type_invariant]
    spec fn keys_distinct(self) -> bool {
        entry_keys(self.entries@).no_duplicates()
    }

    /// The entries in the order in which their keys first came, as pairs of
    /// key and value.
    pub closed spec fn entries(&self) -> Seq<(Seq<char>, serde_json::Value)> {
        Seq::new(self.entries@.len(), |i: int| (self.entries@[i].0@, self.entries@[i].1))
    }

    /// The empty map.
    pub fn new() -> (map: Self)
        ensures
            map@ == Map::<Seq<char>, serde_json::Value>::empty(),
    {
        let map = Annotations { entries: Vec::new() };
        assert(map@ =~= Map::<Seq<char>, serde_json::Value>::empty());
        map
    }

    /// Where `key` stands among the entries, if it does.
    fn position(&self, key: &str) -> (at: Option<usize>)
        ensures
            match at {
                Some(i) => i < self.entries@.len() && self.entries@[i as int].0@ == key@
                    && entry_keys(self.entries@).contains(key@),
                None => !entry_keys(self.entries@).contains(key@),
            },
    {
        let mut i: usize = 0;
        while i < self.entries.len()
            invariant
                i <= self.entries@.len(),
                forall|j: int| 0 <= j < i ==> self.entries@[j].0@ != key@,
            decreases self.entries@.len() - i,
        {
            if same_text(self.entries[i].0.as_str(), key) {
                assert(entry_keys(self.entries@)[i as int] == key@);
                return Some(i);
            }
            i += 1;
        }
        None
    }

    /// The number of entries.
    pub fn len(&self) -> (n: usize)
        ensures
            n == self@.len(),
            n == self.entries().len(),
            self@.dom().finite(),
    {
        proof {
            use_type_invariant(self);
            lemma_entries_map(self.entries@);
        }
        self.entries.len()
    }

    /// Whether the map has no entry.
    pub fn is_empty(&self) -> (empty: bool)
        ensures
            empty == (self@.len() == 0),
    {
        self.len() == 0
    }

    /// Whether `key` has a value.
    pub fn contains_key(&self, key: &str) -> (found: bool)
        ensures
            found == self@.contains_key(key@),
    {
        self.position(key).is_some()
    }

    /// The value under `key`, if there is one.
    pub fn get(&self, key: &str) -> (value: Option<&serde_json::Value>)
        ensures
            match value {
                Some(v) => self@.contains_key(key@) && *v == self@[key@],
                None => !self@.contains_key(key@),
            },
    {
        match self.position(key) {
            Some(i) => {
                proof {
                    use_type_invariant(self);
                    lemma_entries_map(self.entries@);
                }
                Some(&self.entries[i].1)
            },
            None => None,
        }
    }

    /// The map with `value` under `key`; a value that was there is replaced.
    pub fn with_entry(self, key: String, value: serde_json::Value) -> (map: Self)
        ensures
            map@ == self@.insert(key@, value),
    {
        proof {
            use_type_invariant(&self);
        }
        let ghost before = self.entries@;
        let ghost keys = entry_keys(before);
        let at = self.position(key.as_str());
        let mut entries = self.entries;
        match at {
            Some(i) => {
                entries.set(i, (key, value));
                proof {
                    assert(entry_keys(entries@) =~= keys);
                    assert(keys[i as int] == key@);
                    assert forall|k: Seq<char>| keys.contains(k) implies #[trigger] entries_map(
                        entries@,
                    )[k] == entries_map(before).insert(key@, value)[k] by {
                        let j = keys.index_of(k);
                        assert(keys[j] == k);
                    }
                    assert(entries_map(entries@) =~= entries_map(before).insert(key@, value));
                }
            },
            None => {
                entries.push((key, value));
                proof {
                    let new_keys = entry_keys(entries@);
                    assert(new_keys =~= keys.push(key@));
                    assert forall|k: Seq<char>| new_keys.contains(k) <==> (keys.contains(k) || k
                        == key@) by {
                        if keys.contains(k) {
                            let j = keys.index_of(k);
                            assert(new_keys[j] == k);
                        }
                        if k == key@ {
                            assert(new_keys[keys.len() as int] == k);
                        }
                    }
                    assert forall|k: Seq<char>| new_keys.contains(k) implies #[trigger] entries_map(
                        entries@,
                    )[k] == entries_map(before).insert(key@, value)[k] by {
                        let j = new_keys.index_of(k);
                        assert(new_keys[j] == k);
                        if k != key@ {
                            assert(j < keys.len());
                            assert(keys[j] == k);
                            let j0 = keys.index_of(k);
                            assert(keys[j0] == k);
                            assert(new_keys[j0] == k);
                        } else {
                            assert(new_keys[keys.len() as int] == key@);
                        }
                    }
                    assert(entries_map(entries@) =~= entries_map(before).insert(key@, value));
                }
            },
        }
        Annotations { entries }
    }

    /// The key of the `i`-th entry, for `i` below `len()`. The entries are
    /// the pairs of the map, each once.
    pub fn key_at(&self, i: usize) -> (key: &String)
        requires
            i < self@.len(),
        ensures
            key@ == self.entries()[i as int].0,
            self@.contains_key(key@),
            self@[key@] == self.entries()[i as int].1,
    {
        proof {
            use_type_invariant(self);
            lemma_entries_map(self.entries@);
            assert(self@.contains_key(self.entries@[i as int].0@));
        }
        &self.entries[i].0
    }

    /// The value of the `i`-th entry, for `i` below `len()`: the value under
    /// the key of the `i`-th entry.
    pub fn value_at(&self, i: usize) -> (value: &serde_json::Value)
        requires
            i < self@.len(),
        ensures
            *value == self.entries()[i as int].1,
            self@.contains_key(self.entries()[i as int].0),
            self@[self.entries()[i as int].0] == *value,
    {
        proof {
            use_type_invariant(self);
            lemma_entries_map(self.entries@);
            assert(self@.contains_key(self.entries@[i as int].0@));
        }
        &self.entries[i].1
    }
}

impl Clone for Annotations {
    /// A map with the same entries.
    fn clone(&self) -> (copy: Self)
        ensures
            copy@ == self@,
    {
        proof {
            use_type_invariant(self);
        }
        let mut entries: Vec<(String, serde_json::Value)> = Vec::new();
        let mut i: usize = 0;
        while i < self.entries.len()
            invariant
                i <= self.entries@.len(),
                entries@.len() == i,
                forall|j: int|
                    0 <= j < i ==> (#[trigger] entries@[j]).0@ == self.entries@[j].0@
                        && entries@[j].1 == self.entries@[j].1,
            decreases self.entries@.len() - i,
        {
            entries.push((self.entries[i].0.clone(), self.entries[i].1.clone()));
            i += 1;
        }
        proof {
            assert(entry_keys(entries@) =~= entry_keys(self.entries@));
        }
        let copy = Annotations { entries };
        proof {
            lemma_entries_map(entries@);
            lemma_entries_map(self.entries@);
            assert(copy@ =~= self@);
        }
        copy
    }
}

} // verus!
