use vstd::prelude::*;

use crate::errors::Error;

verus! {

/// A key/value store: a mapping from string keys to string values.
///
/// The store is represented as a vector of entries whose keys are
/// pairwise distinct, and is abstracted as the finite map from each
/// key's characters to its value's characters.
pub struct Store {
    entries: Vec<(String, String)>,
}

/// The keys of the entry sequence are pairwise distinct.
pub open spec fn unique_keys(s: Seq<(String, String)>) -> bool {
    forall|i: int, j: int| 0 <= i < j < s.len() ==> s[i].0@ != s[j].0@
}

/// The map an entry sequence stands for: later entries win, though with
/// unique keys there is nothing to win over.
pub open spec fn map_of(s: Seq<(String, String)>) -> Map<Seq<char>, Seq<char>>
    decreases s.len(),
{
    if s.len() == 0 {
        Map::empty()
    } else {
        map_of(s.drop_last()).insert(s.last().0@, s.last().1@)
    }
}

impl View for Store {
    type V = Map<Seq<char>, Seq<char>>;

    closed spec fn view(&self) -> Map<Seq<char>, Seq<char>> {
        map_of(self.entries@)
    }
}

/// A key is in the map exactly when some entry carries it.
proof fn lemma_map_of_contains(s: Seq<(String, String)>, k: Seq<char>)
    ensures
        map_of(s).contains_key(k) <==> exists|i: int| 0 <= i < s.len() && s[i].0@ == k,
    decreases s.len(),
{
    if s.len() > 0 {
        let t = s.drop_last();
        lemma_map_of_contains(t, k);
        if map_of(s).contains_key(k) {
            if k == s.last().0@ {
                assert(s[s.len() - 1].0@ == k);
            } else {
                let i = choose|i: int| 0 <= i < t.len() && t[i].0@ == k;
                assert(s[i].0@ == k);
            }
        }
        if exists|i: int| 0 <= i < s.len() && s[i].0@ == k {
            let i = choose|i: int| 0 <= i < s.len() && s[i].0@ == k;
            if i < s.len() - 1 {
                assert(t[i].0@ == k);
            }
        }
    }
}

/// With unique keys, the map sends each entry's key to that entry's value.
proof fn lemma_map_of_index(s: Seq<(String, String)>, i: int)
    requires
        unique_keys(s),
        0 <= i < s.len(),
    ensures
        map_of(s).contains_key(s[i].0@),
        map_of(s)[s[i].0@] == s[i].1@,
    decreases s.len(),
{
    let t = s.drop_last();
    if i < s.len() - 1 {
        assert(unique_keys(t));
        lemma_map_of_index(t, i);
        assert(s[i].0@ != s.last().0@);
        assert(t[i] == s[i]);
    }
}

/// Replacing the entry at `i` by one with the same key updates the map
/// at that key and touches nothing else.
proof fn lemma_map_of_update(s: Seq<(String, String)>, i: int, p: (String, String))
    requires
        unique_keys(s),
        0 <= i < s.len(),
        p.0@ == s[i].0@,
    ensures
        map_of(s.update(i, p)) == map_of(s).insert(p.0@, p.1@),
    decreases s.len(),
{
    let u = s.update(i, p);
    let t = s.drop_last();
    if i == s.len() - 1 {
        assert(u.drop_last() =~= t);
        assert(u.last() == p);
        assert(map_of(u) == map_of(t).insert(p.0@, p.1@));
        assert(map_of(s).insert(p.0@, p.1@) == map_of(t).insert(s.last().0@, s.last().1@).insert(
            p.0@,
            p.1@,
        ));
        assert(map_of(t).insert(s.last().0@, s.last().1@).insert(p.0@, p.1@) =~= map_of(t).insert(
            p.0@,
            p.1@,
        ));
    } else {
        assert(unique_keys(t));
        assert(t[i] == s[i]);
        lemma_map_of_update(t, i, p);
        assert(u.drop_last() =~= t.update(i, p));
        assert(u.last() == s.last());
        assert(map_of(u) == map_of(t).insert(p.0@, p.1@).insert(s.last().0@, s.last().1@));
        // the two keys differ, so the inserts commute
        assert(p.0@ != s.last().0@);
        assert(map_of(t).insert(p.0@, p.1@).insert(s.last().0@, s.last().1@) =~= map_of(t).insert(
            s.last().0@,
            s.last().1@,
        ).insert(p.0@, p.1@));
    }
}

/// Appending an entry inserts its key/value pair into the map.
proof fn lemma_map_of_push(s: Seq<(String, String)>, p: (String, String))
    ensures
        map_of(s.push(p)) == map_of(s).insert(p.0@, p.1@),
{
    assert(s.push(p).drop_last() =~= s);
    assert(s.push(p).last() == p);
}

/// With unique keys, the map has exactly one key per entry.
proof fn lemma_map_of_len(s: Seq<(String, String)>)
    requires
        unique_keys(s),
    ensures
        map_of(s).dom().finite(),
        map_of(s).dom().len() == s.len(),
    decreases s.len(),
{
    if s.len() > 0 {
        let t = s.drop_last();
        assert(unique_keys(t));
        lemma_map_of_len(t);
        lemma_map_of_contains(t, s.last().0@);
        assert(forall|i: int| 0 <= i < t.len() ==> t[i] == s[i]);
        assert(!map_of(t).contains_key(s.last().0@));
        assert(map_of(s).dom() =~= map_of(t).dom().insert(s.last().0@));
    }
}

impl Store {
    /// The representation invariant: no two entries share a key.
    pub closed spec fn wf(&self) -> bool {
        unique_keys(self.entries@)
    }

    /// Create an empty store.
    pub fn new() -> (s: Store)
        ensures
            s.wf(),
            s@ == Map::<Seq<char>, Seq<char>>::empty(),
    {
        Store { entries: Vec::new() }
    }

    /// Find the position of an entry carrying `key`, if one exists.
    fn find(&self, key: &String) -> (r: Option<usize>)
        ensures
            match r {
                Some(i) => i < self.entries@.len() && self.entries@[i as int].0@ == key@,
                None => forall|j: int| 0 <= j < self.entries@.len() ==> self.entries@[j].0@ != key@,
            },
    {
        let mut i: usize = 0;
        while i < self.entries.len()
            invariant
                i <= self.entries@.len(),
                forall|j: int| 0 <= j < i ==> self.entries@[j].0@ != key@,
            decreases self.entries@.len() - i,
        {
            if self.entries[i].0 == *key {
                return Some(i);
            }
            i += 1;
        }
        None
    }

    /// Whether the store holds an entry for `key`.
    pub fn contains_key(&self, key: &String) -> (b: bool)
        requires
            self.wf(),
        ensures
            b == self@.contains_key(key@),
    {
        proof {
            lemma_map_of_contains(self.entries@, key@);
        }
        self.find(key).is_some()
    }

    /// Look up the value stored under `key`.
    pub fn get(&self, key: &String) -> (r: Option<String>)
        requires
            self.wf(),
        ensures
            match r {
                Some(v) => self@.contains_key(key@) && v@ == self@[key@],
                None => !self@.contains_key(key@),
            },
    {
        proof {
            lemma_map_of_contains(self.entries@, key@);
        }
        match self.find(key) {
            Some(i) => {
                proof {
                    lemma_map_of_index(self.entries@, i as int);
                }
                Some(self.entries[i].1.clone())
            },
            None => None,
        }
    }

    /// Insert-or-overwrite: associate `key` with `value` unconditionally,
    /// returning the previous value if one existed, and `None` as the
    /// absence marker otherwise.
    pub fn insert(&mut self, key: String, value: String) -> (prev: Option<String>)
        requires
            old(self).wf(),
        ensures
            final(self).wf(),
            final(self)@ == old(self)@.insert(key@, value@),
            match prev {
                Some(p) => old(self)@.contains_key(key@) && p@ == old(self)@[key@],
                None => !old(self)@.contains_key(key@),
            },
    {
        proof {
            lemma_map_of_contains(self.entries@, key@);
        }
        match self.find(&key) {
            Some(i) => {
                proof {
                    lemma_map_of_index(self.entries@, i as int);
                }
                let ghost s0 = self.entries@;
                let old_pair = self.entries.remove(i);
                self.entries.insert(i, (key, value));
                proof {
                    assert(self.entries@ =~= s0.update(i as int, (key, value)));
                    lemma_map_of_update(s0, i as int, (key, value));
                    assert(forall|a: int, b: int|
                        0 <= a < b < self.entries@.len() ==> self.entries@[a].0@
                            != self.entries@[b].0@) by {
                        assert(forall|j: int|
                            0 <= j < s0.len() && j != i ==> self.entries@[j] == s0[j]);
                    }
                }
                Some(old_pair.1)
            },
            None => {
                let ghost s0 = self.entries@;
                self.entries.push((key, value));
                proof {
                    lemma_map_of_push(s0, (key, value));
                    assert(forall|a: int, b: int|
                        0 <= a < b < self.entries@.len() ==> self.entries@[a].0@
                            != self.entries@[b].0@) by {
                        assert(forall|j: int| 0 <= j < s0.len() ==> self.entries@[j] == s0[j]);
                    }
                }
                None
            },
        }
    }

    /// Conditional update: replace the value under `key` if the key is
    /// present; otherwise leave the store untouched and report `NotFound`.
    /// This operation never creates an entry.
    pub fn update(&mut self, key: &String, value: String) -> (r: Result<(), Error>)
        requires
            old(self).wf(),
        ensures
            final(self).wf(),
            old(self)@.contains_key(key@) ==> r is Ok && final(self)@ == old(self)@.insert(
                key@,
                value@,
            ),
            !old(self)@.contains_key(key@) ==> r == Err::<(), Error>(Error::NotFound)
                && final(self)@ == old(self)@,
    {
        proof {
            lemma_map_of_contains(self.entries@, key@);
        }
        match self.find(key) {
            Some(i) => {
                let ghost s0 = self.entries@;
                let old_pair = self.entries.remove(i);
                self.entries.insert(i, (old_pair.0, value));
                proof {
                    assert(self.entries@ =~= s0.update(i as int, self.entries@[i as int]));
                    lemma_map_of_update(s0, i as int, self.entries@[i as int]);
                    assert(forall|a: int, b: int|
                        0 <= a < b < self.entries@.len() ==> self.entries@[a].0@
                            != self.entries@[b].0@) by {
                        assert(forall|j: int|
                            0 <= j < s0.len() && j != i ==> self.entries@[j] == s0[j]);
                    }
                }
                Ok(())
            },
            None => Err(Error::NotFound),
        }
    }

    /// The number of entries, which equals the number of keys of the map.
    pub fn len(&self) -> (n: usize)
        requires
            self.wf(),
        ensures
            n == self@.len(),
    {
        proof {
            lemma_map_of_len(self.entries@);
        }
        self.entries.len()
    }

    /// Whether the store holds no entry at all.
    pub fn is_empty(&self) -> (b: bool)
        requires
            self.wf(),
        ensures
            b <==> self@ == Map::<Seq<char>, Seq<char>>::empty(),
    {
        proof {
            if self.entries@.len() > 0 {
                lemma_map_of_index(self.entries@, 0);
            }
        }
        self.entries.is_empty()
    }

    /// An exact copy of the store: same keys, same values.
    pub fn snapshot(&self) -> (s: Store)
        requires
            self.wf(),
        ensures
            s.wf(),
            s@ == self@,
    {
        let mut copy: Vec<(String, String)> = Vec::new();
        let mut i: usize = 0;
        while i < self.entries.len()
            invariant
                i <= self.entries@.len(),
                copy@.len() == i,
                forall|j: int| 0 <= j < i ==> copy@[j] == self.entries@[j],
            decreases self.entries@.len() - i,
        {
            let k = self.entries[i].0.clone();
            let v = self.entries[i].1.clone();
            copy.push((k, v));
            i += 1;
        }
        proof {
            assert(copy@ =~= self.entries@);
        }
        Store { entries: copy }
    }
}

} // verus!
