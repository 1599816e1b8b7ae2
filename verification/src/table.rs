//! A small table from texts to values.

use vstd::prelude::*;
use vstd::string::*;
use crate::text;

verus! {

/// A table from texts to values. No key occurs twice.
#[derive(Debug)]
pub struct Table<V> {
    entries: Vec<(String, V)>,
}

/// The position of the entry with the key `key`, at or after `from`.
pub open spec fn entry_from<V>(entries: Seq<(String, V)>, key: Seq<char>, from: int) -> Option<int>
    decreases entries.len() - from,
{
    if from < 0 || from >= entries.len() {
        None
    } else if entries[from].0@ == key {
        Some(from)
    } else {
        entry_from(entries, key, from + 1)
    }
}

proof fn entry_from_finds<V>(entries: Seq<(String, V)>, key: Seq<char>, from: int)
    requires
        from >= 0,
    ensures
        match entry_from(entries, key, from) {
            Some(i) => from <= i < entries.len() && entries[i].0@ == key,
            None => forall|j: int| from <= j < entries.len() ==> (#[trigger] entries[j]).0@ != key,
        },
    decreases entries.len() - from,
{
    if from < entries.len() && entries[from].0@ != key {
        entry_from_finds(entries, key, from + 1);
    }
}

/// Whether no key occurs twice.
pub open spec fn distinct_keys<V>(entries: Seq<(String, V)>) -> bool {
    forall|i: int, j: int|
        0 <= i < j < entries.len() ==> (#[trigger] entries[i]).0@ != (#[trigger] entries[j]).0@
}

/// The map from the keys of the entries to their values.
pub open spec fn entries_map<V>(entries: Seq<(String, V)>) -> Map<Seq<char>, V> {
    Map::new(
        |key: Seq<char>| entry_from(entries, key, 0) is Some,
        |key: Seq<char>| entries[entry_from(entries, key, 0)->0].1,
    )
}

impl<V> View for Table<V> {
    type V = Map<Seq<char>, V>;

    closed spec fn view(&self) -> Map<Seq<char>, V> {
        entries_map(self.entries@)
    }
}

impl<V> Table<V> {
    #[verifier::type_invariant]
    spec fn wf(&self) -> bool {
        distinct_keys(self.entries@)
    }

    /// An empty table.
    pub fn new() -> (t: Self)
        ensures
            t@ == Map::<Seq<char>, V>::empty(),
    {
        let t = Table { entries: Vec::new() };
        assert(t@ =~= Map::<Seq<char>, V>::empty());
        t
    }

    /// The entries. No key occurs twice, and the table maps exactly
    /// their keys, each to its value.
    pub fn entries(&self) -> (r: &Vec<(String, V)>)
        ensures
            distinct_keys(r@),
            self@ == entries_map(r@),
    {
        proof {
            use_type_invariant(self);
        }
        &self.entries
    }

    fn index_of(&self, key: &str) -> (r: Option<usize>)
        ensures
            match r {
                Some(i) => i < self.entries@.len() && self.entries@[i as int].0@ == key@
                    && entry_from(self.entries@, key@, 0) == Some(i as int),
                None => entry_from(self.entries@, key@, 0) is None,
            },
    {
        let mut i: usize = 0;
        while i < self.entries.len()
            invariant
                i <= self.entries@.len(),
                entry_from(self.entries@, key@, 0) == entry_from(self.entries@, key@, i as int),
            decreases self.entries@.len() - i,
        {
            if text::same_text(self.entries[i].0.as_str(), key) {
                return Some(i);
            }
            i = i + 1;
        }
        None
    }

    /// The keys, each once.
    pub fn keys(&self) -> (r: Vec<String>)
        ensures
            text::texts(r@).no_duplicates(),
            text::texts(r@).to_set() == self@.dom(),
    {
        proof {
            use_type_invariant(self);
        }
        let mut out: Vec<String> = Vec::new();
        for i in 0..self.entries.len()
            invariant
                out@.len() == i,
                forall|j: int| 0 <= j < i ==> (#[trigger] out@[j])@ == self.entries@[j].0@,
        {
            out.push(self.entries[i].0.clone());
        }
        proof {
            let all = text::texts(out@);
            assert forall|a: int, b: int| 0 <= a < all.len() && 0 <= b < all.len() && a
                != b implies all[a] != all[b] by {
                assert(all[a] == out@[a]@ && all[b] == out@[b]@);
                if a < b {
                    assert(self.entries@[a].0@ != self.entries@[b].0@);
                } else {
                    assert(self.entries@[b].0@ != self.entries@[a].0@);
                }
            }
            assert forall|key: Seq<char>| all.to_set().contains(key)
                == #[trigger] self@.dom().contains(key) by {
                entry_from_finds(self.entries@, key, 0);
                if self@.dom().contains(key) {
                    let i = entry_from(self.entries@, key, 0)->0;
                    assert(all[i] == out@[i]@);
                    assert(all.contains(key));
                } else if all.contains(key) {
                    let i = choose|i: int| 0 <= i < all.len() && all[i] == key;
                    assert(all[i] == out@[i]@);
                    assert(self.entries@[i].0@ == key);
                }
            }
            assert(all.to_set() =~= self@.dom());
        }
        out
    }

    /// Gives the entries away.
    pub fn into_entries(self) -> (r: Vec<(String, V)>)
        ensures
            distinct_keys(r@),
            self@ == entries_map(r@),
    {
        proof {
            use_type_invariant(&self);
        }
        self.entries
    }

    /// Whether the table has the key `key`.
    pub fn contains_key(&self, key: &str) -> (r: bool)
        ensures
            r == self@.dom().contains(key@),
    {
        self.index_of(key).is_some()
    }

    /// The value of the key `key`.
    pub fn get(&self, key: &str) -> (r: Option<&V>)
        ensures
            match r {
                Some(v) => self@.dom().contains(key@) && *v == self@[key@],
                None => !self@.dom().contains(key@),
            },
    {
        match self.index_of(key) {
            Some(i) => Some(&self.entries[i].1),
            None => None,
        }
    }

    /// Gives the key `key` the value `value`, in place of any that it had.
    pub fn insert(&mut self, key: String, value: V)
        ensures
            final(self)@ == old(self)@.insert(key@, value),
    {
        proof {
            use_type_invariant(&*self);
        }
        let ghost before = self.entries@;
        let at = self.index_of(key.as_str());
        let mut entries: Vec<(String, V)> = Vec::new();
        std::mem::swap(&mut entries, &mut self.entries);
        let ghost new_value = value;
        let ghost new_key = key@;
        match at {
            Some(i) => {
                entries.set(i, (key, value));
            },
            None => {
                entries.push((key, value));
            },
        }
        proof {
            entry_from_finds(before, new_key, 0);
            assert(distinct_keys(entries@)) by {
                assert forall|i: int, j: int| 0 <= i < j < entries@.len() implies (
                #[trigger] entries@[i]).0@ != (#[trigger] entries@[j]).0@ by {
                    if i < before.len() {
                        assert(entries@[i].0@ == before[i].0@);
                    }
                    if j < before.len() {
                        assert(entries@[j].0@ == before[j].0@);
                    }
                }
            }
            insert_entry(before, entries@, new_key, new_value, match at {
                Some(i) => i as int,
                None => before.len() as int,
            });
        }
        self.entries = entries;
    }

    /// Takes the key `key` and its value out of the table.
    pub fn remove(&mut self, key: &str)
        ensures
            final(self)@ == old(self)@.remove(key@),
    {
        proof {
            use_type_invariant(&*self);
        }
        let ghost before = self.entries@;
        let at = self.index_of(key);
        let mut entries: Vec<(String, V)> = Vec::new();
        std::mem::swap(&mut entries, &mut self.entries);
        match at {
            Some(i) => {
                entries.remove(i);
                proof {
                    remove_entry(before, key@, i as int);
                    assert(entries@ == before.remove(i as int));
                }
            },
            None => {
                assert(entries_map(before) =~= entries_map(before).remove(key@));
            },
        }
        self.entries = entries;
    }
}

proof fn distinct_entry<V>(entries: Seq<(String, V)>, key: Seq<char>, i: int)
    requires
        distinct_keys(entries),
        0 <= i < entries.len(),
        entries[i].0@ == key,
    ensures
        entry_from(entries, key, 0) == Some(i),
{
    entry_from_finds(entries, key, 0);
}

proof fn insert_entry<V>(
    before: Seq<(String, V)>,
    after: Seq<(String, V)>,
    key: Seq<char>,
    value: V,
    at: int,
)
    requires
        distinct_keys(before),
        distinct_keys(after),
        0 <= at <= before.len(),
        after.len() == if at == before.len() { before.len() + 1 } else { before.len() },
        forall|j: int| 0 <= j < before.len() && j != at ==> after[j] == before[j],
        after[at].0@ == key,
        after[at].1 == value,
        at < before.len() ==> before[at].0@ == key,
    ensures
        entries_map(after) == entries_map(before).insert(key, value),
{
    let want = entries_map(before).insert(key, value);
    assert forall|k: Seq<char>|
        #![trigger entries_map(after).dom().contains(k)]
        #![trigger entries_map(after)[k]]
        entries_map(after).dom().contains(k) == want.dom().contains(k) && (want.dom().contains(k)
            ==> entries_map(after)[k] == want[k]) by {
        entry_from_finds(before, k, 0);
        entry_from_finds(after, k, 0);
        if k == key {
            distinct_entry(after, k, at);
        } else {
            match entry_from(before, k, 0) {
                Some(i) => {
                    assert(i != at);
                    assert(after[i].0@ == k);
                    distinct_entry(after, k, i);
                },
                None => {
                    match entry_from(after, k, 0) {
                        Some(i) => {
                            assert(i != at);
                            assert(before[i].0@ == k);
                        },
                        None => {},
                    }
                },
            }
        }
    }
    assert(entries_map(after) =~= want);
}

proof fn remove_entry<V>(before: Seq<(String, V)>, key: Seq<char>, at: int)
    requires
        distinct_keys(before),
        0 <= at < before.len(),
        before[at].0@ == key,
    ensures
        distinct_keys(before.remove(at)),
        entries_map(before.remove(at)) == entries_map(before).remove(key),
{
    let after = before.remove(at);
    let want = entries_map(before).remove(key);
    assert(forall|j: int|
        0 <= j < after.len() ==> (#[trigger] after[j]) == before[if j < at { j } else { j + 1 }]);
    assert forall|k: Seq<char>|
        #![trigger entries_map(after).dom().contains(k)]
        #![trigger entries_map(after)[k]]
        entries_map(after).dom().contains(k) == want.dom().contains(k) && (want.dom().contains(k)
            ==> entries_map(after)[k] == want[k]) by {
        entry_from_finds(before, k, 0);
        entry_from_finds(after, k, 0);
        match entry_from(before, k, 0) {
            Some(i) => {
                if k != key {
                    let j = if i < at { i } else { i - 1 };
                    assert(after[j] == before[i]);
                    distinct_entry(after, k, j);
                } else {
                    distinct_entry(before, k, at);
                }
            },
            None => {},
        }
    }
    assert(entries_map(after) =~= want);
}

}
