//! A small keyed table: an ordered list of `(key, value)` pairs in which a key
//! is looked up by its first occurrence. Counters, variables and the label
//! index of a compiled script are all tables.

use vstd::prelude::*;

verus! {

/// The index of the first pair whose key is `key`, if there is one.
pub open spec fn position<V>(pairs: Seq<(Seq<char>, V)>, key: Seq<char>) -> Option<int>
    decreases pairs.len(),
{
    if pairs.len() == 0 {
        None
    } else {
        match position(pairs.drop_last(), key) {
            Some(i) => Some(i),
            None => if pairs.last().0 == key {
                Some(pairs.len() - 1)
            } else {
                None
            },
        }
    }
}

/// The value stored under `key`, if any.
pub open spec fn lookup<V>(pairs: Seq<(Seq<char>, V)>, key: Seq<char>) -> Option<V> {
    match position(pairs, key) {
        Some(i) => Some(pairs[i].1),
        None => None,
    }
}

/// The table after storing `value` under `key`: the pair that held the key is
/// replaced in place, and a new key is added at the end.
pub open spec fn put<V>(pairs: Seq<(Seq<char>, V)>, key: Seq<char>, value: V) -> Seq<
    (Seq<char>, V),
> {
    match position(pairs, key) {
        Some(i) => pairs.update(i, (key, value)),
        None => pairs.push((key, value)),
    }
}

/// `position` finds the first pair with the key, and finds none only when no
/// pair has it.
pub proof fn lemma_position<V>(pairs: Seq<(Seq<char>, V)>, key: Seq<char>)
    ensures
        match position(pairs, key) {
            Some(i) => 0 <= i < pairs.len() && pairs[i].0 == key && forall|j: int|
                0 <= j < i ==> pairs[j].0 != key,
            None => forall|j: int| 0 <= j < pairs.len() ==> pairs[j].0 != key,
        },
    decreases pairs.len(),
{
    if pairs.len() > 0 {
        let front = pairs.drop_last();
        lemma_position(front, key);
        assert(forall|j: int| 0 <= j < front.len() ==> front[j] == pairs[j]);
        match position(front, key) {
            Some(i) => {
                assert(front[i] == pairs[i]);
            },
            None => {
                assert forall|j: int| 0 <= j < pairs.len() - 1 implies pairs[j].0 != key by {
                    assert(front[j] == pairs[j]);
                }
            },
        }
    }
}

/// After `put`, the key holds the new value and every other key holds what it
/// held before.
pub proof fn lemma_lookup_put<V>(
    pairs: Seq<(Seq<char>, V)>,
    key: Seq<char>,
    value: V,
    other: Seq<char>,
)
    ensures
        lookup(put(pairs, key, value), other) == if other == key {
            Some(value)
        } else {
            lookup(pairs, other)
        },
{
    let after = put(pairs, key, value);
    lemma_position(pairs, key);
    lemma_position(pairs, other);
    lemma_position(after, other);
    match position(pairs, key) {
        Some(i) => {
            assert(forall|j: int| 0 <= j < pairs.len() && j != i ==> after[j] == pairs[j]);
            assert(after[i] == (key, value));
            if other == key {
                assert(position(after, other) == Some(i)) by {
                    if position(after, other) != Some(i) {
                        let k = position(after, other).unwrap();
                        assert(after[k] == pairs[k]);
                    }
                }
            } else {
                match position(pairs, other) {
                    Some(m) => {
                        assert(after[m] == pairs[m]);
                        let k = position(after, other).unwrap();
                        if k < m {
                            assert(after[k] == pairs[k]);
                        }
                    },
                    None => {
                        if position(after, other) is Some {
                            let k = position(after, other).unwrap();
                            assert(after[k] == pairs[k]);
                        }
                    },
                }
            }
        },
        None => {
            assert(forall|j: int| 0 <= j < pairs.len() ==> after[j] == pairs[j]);
            assert(after[pairs.len() as int] == (key, value));
            if other == key {
                let k = position(after, other).unwrap();
                if k < pairs.len() {
                    assert(after[k] == pairs[k]);
                }
            } else {
                match position(pairs, other) {
                    Some(m) => {
                        assert(after[m] == pairs[m]);
                        let k = position(after, other).unwrap();
                        if k < m {
                            assert(after[k] == pairs[k]);
                        }
                    },
                    None => {
                        if position(after, other) is Some {
                            let k = position(after, other).unwrap();
                            if k < pairs.len() {
                                assert(after[k] == pairs[k]);
                            }
                        }
                    },
                }
            }
        },
    }
}

/// An ordered table from string keys to values.
#[derive(Debug)]
pub struct Table<V> {
    pub entries: Vec<(String, V)>,
}

impl<V: Copy> Table<V> {
    /// The pairs of the table, each key as its characters.
    pub open spec fn pairs(&self) -> Seq<(Seq<char>, V)> {
        Seq::new(self.entries@.len(), |i: int| (self.entries@[i].0@, self.entries@[i].1))
    }

    /// The value stored under `key`, if any.
    pub open spec fn spec_get(&self, key: Seq<char>) -> Option<V> {
        lookup(self.pairs(), key)
    }

    /// The table without entries.
    pub fn new() -> (r: Self)
        ensures
            r.pairs() == Seq::<(Seq<char>, V)>::empty(),
    {
        let r = Table { entries: Vec::new() };
        assert(r.pairs() =~= Seq::<(Seq<char>, V)>::empty());
        r
    }

    /// The index of the first entry under `key`.
    pub fn find(&self, key: &String) -> (r: Option<usize>)
        ensures
            match r {
                Some(i) => i < self.entries@.len() && position(self.pairs(), key@) == Some(
                    i as int,
                ),
                None => position(self.pairs(), key@) is None,
            },
    {
        let mut i: usize = 0;
        while i < self.entries.len()
            invariant
                i <= self.entries@.len(),
                forall|j: int| 0 <= j < i ==> self.pairs()[j].0 != key@,
            decreases self.entries@.len() - i,
        {
            if self.entries[i].0 == *key {
                proof {
                    lemma_position(self.pairs(), key@);
                    assert(self.pairs()[i as int].0 == key@);
                }
                return Some(i);
            }
            i += 1;
        }
        proof {
            lemma_position(self.pairs(), key@);
        }
        None
    }

    /// The value stored under `key`, if any.
    pub fn get(&self, key: &String) -> (r: Option<V>)
        ensures
            r == self.spec_get(key@),
    {
        match self.find(key) {
            Some(i) => Some(self.entries[i].1),
            None => None,
        }
    }

    /// Stores `value` under `key`, replacing what the key held. Every other
    /// key holds what it held before.
    pub fn insert(&mut self, key: String, value: V)
        ensures
            final(self).pairs() == put(old(self).pairs(), key@, value),
            final(self).spec_get(key@) == Some(value),
            forall|other: Seq<char>|
                other != key@ ==> final(self).spec_get(other) == old(self).spec_get(other),
    {
        match self.find(&key) {
            Some(i) => {
                self.entries.set(i, (key, value));
            },
            None => {
                self.entries.push((key, value));
            },
        }
        assert(self.pairs() =~= put(old(self).pairs(), key@, value));
        proof {
            lemma_lookup_put(old(self).pairs(), key@, value, key@);
            assert forall|other: Seq<char>| other != key@ implies self.spec_get(other) == old(
                self,
            ).spec_get(other) by {
                lemma_lookup_put(old(self).pairs(), key@, value, other);
            }
        }
    }

    /// A copy of the table.
    pub fn copy(&self) -> (r: Self)
        ensures
            r.pairs() == self.pairs(),
    {
        let mut entries: Vec<(String, V)> = Vec::new();
        let mut i: usize = 0;
        while i < self.entries.len()
            invariant
                i <= self.entries@.len(),
                entries@.len() == i,
                forall|j: int|
                    0 <= j < i ==> entries@[j].0@ == self.entries@[j].0@ && entries@[j].1
                        == self.entries@[j].1,
            decreases self.entries@.len() - i,
        {
            entries.push((self.entries[i].0.clone(), self.entries[i].1));
            i += 1;
        }
        let r = Table { entries };
        assert(r.pairs() =~= self.pairs());
        r
    }
}

} // verus!
