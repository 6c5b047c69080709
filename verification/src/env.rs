//! A string-keyed map of environment variables.
use vstd::prelude::*;

use crate::text::str_equal;

verus! {

broadcast use vstd::string::group_string_axioms;

/// The map that a list of distinct-keyed entries describes.
pub open spec fn entries_map(entries: Seq<(String, String)>) -> Map<Seq<char>, Seq<char>>
    decreases entries.len(),
{
    if entries.len() == 0 {
        Map::empty()
    } else {
        entries_map(entries.drop_last()).insert(entries.last().0@, entries.last().1@)
    }
}

/// `i` is the last position whose key is `k`.
pub open spec fn last_index_of(entries: Seq<(String, String)>, k: Seq<char>, i: int) -> bool {
    0 <= i < entries.len() && entries[i].0@ == k && forall|j: int|
        i < j < entries.len() ==> (#[trigger] entries[j]).0@ != k
}

pub proof fn lemma_entries_map(entries: Seq<(String, String)>, k: Seq<char>)
    ensures
        entries_map(entries).contains_key(k) <==> exists|i: int|
            0 <= i < entries.len() && entries[i].0@ == k,
        forall|i: int| last_index_of(entries, k, i) ==> entries_map(entries)[k] == entries[i].1@,
    decreases entries.len(),
{
    if entries.len() > 0 {
        let init = entries.drop_last();
        lemma_entries_map(init, k);
        if exists|i: int| 0 <= i < init.len() && init[i].0@ == k {
            let i = choose|i: int| 0 <= i < init.len() && init[i].0@ == k;
            assert(entries[i] == init[i]);
        }
        if exists|i: int| 0 <= i < entries.len() && entries[i].0@ == k {
            let i = choose|i: int| 0 <= i < entries.len() && entries[i].0@ == k;
            if i < entries.len() - 1 {
                assert(init[i] == entries[i]);
            }
        }
        assert forall|i: int| last_index_of(entries, k, i) implies entries_map(entries)[k]
            == entries[i].1@ by {
            if i < entries.len() - 1 {
                assert(init[i] == entries[i]);
                assert(entries[entries.len() - 1].0@ != k);
                assert forall|j: int| i < j < init.len() implies (#[trigger] init[j]).0@ != k by {
                    assert(init[j] == entries[j]);
                }
                assert(last_index_of(init, k, i));
            }
        }
    }
}

/// Replacing the value at the last position of `k` updates the map at `k` only.
proof fn lemma_entries_map_replace(entries: Seq<(String, String)>, i: int, key: String, value: String)
    requires
        last_index_of(entries, key@, i),
    ensures
        entries_map(entries.update(i, (key, value))) == entries_map(entries).insert(key@, value@),
    decreases entries.len(),
{
    let updated = entries.update(i, (key, value));
    if i == entries.len() - 1 {
        assert(updated.drop_last() =~= entries.drop_last());
        assert(entries_map(entries.drop_last()).insert(entries.last().0@, entries.last().1@).insert(
            key@,
            value@,
        ) =~= entries_map(entries.drop_last()).insert(key@, value@));
    } else {
        let init = entries.drop_last();
        assert(last_index_of(init, key@, i)) by {
            assert forall|j: int| i < j < init.len() implies (#[trigger] init[j]).0@ != key@ by {
                assert(init[j] == entries[j]);
            }
        }
        lemma_entries_map_replace(init, i, key, value);
        assert(updated.drop_last() =~= init.update(i, (key, value)));
        assert(updated.last() == entries.last());
        assert(entries.last().0@ != key@);
        assert(entries_map(init).insert(key@, value@).insert(entries.last().0@, entries.last().1@)
            =~= entries_map(init).insert(entries.last().0@, entries.last().1@).insert(
            key@,
            value@,
        ));
    }
}

/// Environment variables by name.
#[derive(Debug, Clone)]
pub struct EnvMap {
    entries: Vec<(String, String)>,
}

impl View for EnvMap {
    type V = Map<Seq<char>, Seq<char>>;

    closed spec fn view(&self) -> Map<Seq<char>, Seq<char>> {
        entries_map(self.entries@)
    }
}

impl EnvMap {
    pub fn new() -> (map: Self)
        ensures
            map@ == Map::<Seq<char>, Seq<char>>::empty(),
    {
        EnvMap { entries: Vec::new() }
    }

    fn position(&self, key: &str) -> (index: Option<usize>)
        ensures
            match index {
                Some(i) => last_index_of(self.entries@, key@, i as int),
                None => forall|i: int| 0 <= i < self.entries@.len() ==> self.entries@[i].0@ != key@,
            },
    {
        let mut i: usize = self.entries.len();
        while i > 0
            invariant
                i <= self.entries@.len(),
                forall|j: int| i <= j < self.entries@.len() ==> (#[trigger] self.entries@[j]).0@ != key@,
            decreases i,
        {
            if str_equal(self.entries[i - 1].0.as_str(), key) {
                return Some(i - 1);
            }
            i -= 1;
        }
        None
    }

    pub fn contains_key(&self, key: &str) -> (present: bool)
        ensures
            present == self@.contains_key(key@),
    {
        proof {
            lemma_entries_map(self.entries@, key@);
        }
        self.position(key).is_some()
    }

    pub fn get(&self, key: &str) -> (value: Option<&String>)
        ensures
            match value {
                Some(v) => self@.contains_key(key@) && self@[key@] == v@,
                None => !self@.contains_key(key@),
            },
    {
        proof {
            lemma_entries_map(self.entries@, key@);
        }
        match self.position(key) {
            Some(i) => Some(&self.entries[i].1),
            None => None,
        }
    }

    /// Sets `key` to `value`, replacing any earlier value.
    pub fn insert(&mut self, key: String, value: String)
        ensures
            final(self)@ == old(self)@.insert(key@, value@),
    {
        match self.position(key.as_str()) {
            Some(i) => {
                proof {
                    lemma_entries_map_replace(self.entries@, i as int, key, value);
                }
                self.entries.set(i, (key, value));
            },
            None => {
                self.entries.push((key, value));
                proof {
                    assert(self.entries@.drop_last() =~= old(self).entries@);
                }
            },
        }
    }

    /// Sets `key` to `value` unless it already has a value.
    pub fn insert_if_absent(&mut self, key: String, value: String)
        ensures
            final(self)@ == if old(self)@.contains_key(key@) {
                old(self)@
            } else {
                old(self)@.insert(key@, value@)
            },
    {
        if !self.contains_key(key.as_str()) {
            self.insert(key, value);
        }
    }

    /// The entries; a later entry for a key overrides an earlier one.
    pub fn entries(&self) -> (entries: &[(String, String)])
        ensures
            entries_map(entries@) == self@,
    {
        self.entries.as_slice()
    }
}

} // verus!
