//! An ordered list of entries keyed by text, with at most one entry per key.
//!
//! The model of a list is the sequence of its `(key, value)` pairs in the
//! order in which the keys first arrived. All contracts speak of that
//! sequence through the spec functions below.

use vstd::prelude::*;

verus! {

/// Some entry of `s` has the key `key`.
pub open spec fn has_key<T>(s: Seq<(Seq<char>, T)>, key: Seq<char>) -> bool {
    exists|i: int| 0 <= i < s.len() && (#[trigger] s[i]).0 == key
}

/// `i` is the position of the first entry of `s` with the key `key`.
pub open spec fn is_first_at<T>(s: Seq<(Seq<char>, T)>, key: Seq<char>, i: int) -> bool {
    &&& 0 <= i < s.len()
    &&& s[i].0 == key
    &&& forall|j: int| 0 <= j < i ==> (#[trigger] s[j]).0 != key
}

/// The position of the first entry with the key `key` (meaningful where
/// `has_key` holds).
pub open spec fn index_of<T>(s: Seq<(Seq<char>, T)>, key: Seq<char>) -> int {
    choose|i: int| is_first_at(s, key, i)
}

/// The value stored under `key` (meaningful where `has_key` holds).
pub open spec fn value_of<T>(s: Seq<(Seq<char>, T)>, key: Seq<char>) -> T {
    s[index_of(s, key)].1
}

/// The value stored under `key`, or `fallback` where there is none.
pub open spec fn value_or<T>(s: Seq<(Seq<char>, T)>, key: Seq<char>, fallback: T) -> T {
    if has_key(s, key) {
        value_of(s, key)
    } else {
        fallback
    }
}

/// `s` with `value` stored under `key`: an existing entry keeps its place, a
/// new one goes to the end.
pub open spec fn upsert<T>(s: Seq<(Seq<char>, T)>, key: Seq<char>, value: T) -> Seq<
    (Seq<char>, T),
> {
    if has_key(s, key) {
        s.update(index_of(s, key), (key, value))
    } else {
        s.push((key, value))
    }
}

/// `s` without the entry stored under `key`; `s` itself where there is none.
pub open spec fn without<T>(s: Seq<(Seq<char>, T)>, key: Seq<char>) -> Seq<(Seq<char>, T)> {
    if has_key(s, key) {
        s.remove(index_of(s, key))
    } else {
        s
    }
}

/// No two entries of `s` share a key.
pub open spec fn distinct_keys<T>(s: Seq<(Seq<char>, T)>) -> bool {
    forall|i: int, j: int|
        0 <= i < j < s.len() ==> (#[trigger] s[i]).0 != (#[trigger] s[j]).0
}

/// The first position of a key is unique, and `index_of` is that position.
pub proof fn lemma_index_of<T>(s: Seq<(Seq<char>, T)>, key: Seq<char>, i: int)
    requires
        is_first_at(s, key, i),
    ensures
        has_key(s, key),
        index_of(s, key) == i,
{
    let j = index_of(s, key);
    assert(is_first_at(s, key, j));
    if j < i {
        assert(s[j].0 != key);
    }
    if i < j {
        assert(s[i].0 != key);
    }
}

/// Where a key is present, `index_of` is the position of its first entry.
pub proof fn lemma_has_key_index<T>(s: Seq<(Seq<char>, T)>, key: Seq<char>)
    requires
        has_key(s, key),
    ensures
        is_first_at(s, key, index_of(s, key)),
{
    let k = choose|i: int| 0 <= i < s.len() && (#[trigger] s[i]).0 == key;
    lemma_first_exists(s, key, k);
}

proof fn lemma_first_exists<T>(s: Seq<(Seq<char>, T)>, key: Seq<char>, k: int)
    requires
        0 <= k < s.len(),
        s[k].0 == key,
    ensures
        exists|i: int| is_first_at(s, key, i),
    decreases k,
{
    if exists|j: int| 0 <= j < k && (#[trigger] s[j]).0 == key {
        let j = choose|j: int| 0 <= j < k && (#[trigger] s[j]).0 == key;
        lemma_first_exists(s, key, j);
    } else {
        assert(is_first_at(s, key, k));
    }
}

/// What was stored under a key is what is found there.
pub proof fn lemma_upsert_value<T>(s: Seq<(Seq<char>, T)>, key: Seq<char>, value: T)
    ensures
        has_key(upsert(s, key, value), key),
        value_of(upsert(s, key, value), key) == value,
{
    let t = upsert(s, key, value);
    if has_key(s, key) {
        lemma_has_key_index(s, key);
        let i = index_of(s, key);
        assert(is_first_at(t, key, i)) by {
            assert forall|j: int| 0 <= j < i implies (#[trigger] t[j]).0 != key by {
                assert(t[j].0 == s[j].0);
            }
        }
        lemma_index_of(t, key, i);
    } else {
        let n = s.len() as int;
        assert(is_first_at(t, key, n)) by {
            assert forall|j: int| 0 <= j < n implies (#[trigger] t[j]).0 != key by {
                assert(t[j] == s[j]);
            }
        }
        lemma_index_of(t, key, n);
    }
}

/// Storing under a key keeps the keys distinct.
pub proof fn lemma_upsert_distinct<T>(s: Seq<(Seq<char>, T)>, key: Seq<char>, value: T)
    requires
        distinct_keys(s),
    ensures
        distinct_keys(upsert(s, key, value)),
{
    let t = upsert(s, key, value);
    if has_key(s, key) {
        lemma_has_key_index(s, key);
        let i = index_of(s, key);
        assert forall|a: int, b: int| 0 <= a < b < t.len() implies (#[trigger] t[a]).0 != (
        #[trigger] t[b]).0 by {
            assert(t[a].0 == s[a].0);
            assert(t[b].0 == s[b].0);
        }
    } else {
        let n = s.len() as int;
        assert forall|a: int, b: int| 0 <= a < b < t.len() implies (#[trigger] t[a]).0 != (
        #[trigger] t[b]).0 by {
            assert(t[a] == s[a]);
            if b < n {
                assert(t[b] == s[b]);
            }
        }
    }
}

/// Removing a key keeps the keys distinct, and the key is gone afterwards.
pub proof fn lemma_without_distinct<T>(s: Seq<(Seq<char>, T)>, key: Seq<char>)
    requires
        distinct_keys(s),
    ensures
        distinct_keys(without(s, key)),
        !has_key(without(s, key), key),
{
    let t = without(s, key);
    if has_key(s, key) {
        lemma_has_key_index(s, key);
        let i = index_of(s, key);
        assert forall|a: int| 0 <= a < t.len() implies #[trigger] t[a] == s[if a < i {
            a
        } else {
            a + 1
        }] by {}
        assert forall|a: int, b: int| 0 <= a < b < t.len() implies (#[trigger] t[a]).0 != (
        #[trigger] t[b]).0 by {
            let a2 = if a < i { a } else { a + 1 };
            let b2 = if b < i { b } else { b + 1 };
            assert(t[a] == s[a2]);
            assert(t[b] == s[b2]);
            assert(s[a2].0 != s[b2].0);
        }
        assert forall|a: int| 0 <= a < t.len() implies (#[trigger] t[a]).0 != key by {
            let a2 = if a < i { a } else { a + 1 };
            assert(t[a] == s[a2]);
            if a2 < i {
                assert(s[a2].0 != s[i].0);
            } else {
                assert(s[i].0 != s[a2].0);
            }
        }
    }
}

/// The list that storing the pairs one after the other, from the first to
/// the last, builds up from nothing.
pub open spec fn rebuilt<T>(pairs: Seq<(Seq<char>, T)>) -> Seq<(Seq<char>, T)>
    decreases pairs.len(),
{
    if pairs.len() == 0 {
        Seq::empty()
    } else {
        upsert(rebuilt(pairs.drop_last()), pairs.last().0, pairs.last().1)
    }
}

/// A list that is built up again from its own entries is the list itself.
pub proof fn lemma_rebuilt_same<T>(s: Seq<(Seq<char>, T)>)
    requires
        distinct_keys(s),
    ensures
        rebuilt(s) == s,
    decreases s.len(),
{
    if s.len() > 0 {
        let front = s.drop_last();
        lemma_rebuilt_same(front);
        let n = front.len() as int;
        assert(!has_key(front, s.last().0)) by {
            assert forall|i: int| 0 <= i < n implies (#[trigger] front[i]).0 != s.last().0 by {
                assert(front[i] == s[i]);
                assert(s[i].0 != s[n].0);
            }
        }
        assert(front.push(s.last()) =~= s);
    } else {
        assert(s =~= Seq::empty());
    }
}

/// Whatever pairs a list is built up from, its keys are distinct.
pub proof fn lemma_rebuilt_distinct<T>(pairs: Seq<(Seq<char>, T)>)
    ensures
        distinct_keys(rebuilt(pairs)),
    decreases pairs.len(),
{
    if pairs.len() > 0 {
        lemma_rebuilt_distinct(pairs.drop_last());
        lemma_upsert_distinct(rebuilt(pairs.drop_last()), pairs.last().0, pairs.last().1);
    }
}

/// A list of values keyed by text. A key occurs at most once; entries keep the
/// order in which their keys were first stored.
#[derive(Clone, Debug)]
pub struct KeyedList<V> {
    entries: Vec<(String, V)>,
}

impl<V: View> View for KeyedList<V> {
    type V = Seq<(Seq<char>, V::V)>;

    closed spec fn view(&self) -> Seq<(Seq<char>, V::V)> {
        self.entries@.map_values(|e: (String, V)| (e.0@, e.1@))
    }
}

impl<V: View> Default for KeyedList<V> {
    /// The empty list.
    fn default() -> (r: Self)
        ensures
            r@ == Seq::<(Seq<char>, V::V)>::empty(),
    {
        KeyedList::new()
    }
}

impl<V: View> KeyedList<V> {
    /// The empty list.
    pub fn new() -> (r: Self)
        ensures
            r@ == Seq::<(Seq<char>, V::V)>::empty(),
            distinct_keys(r@),
    {
        let r = KeyedList { entries: Vec::new() };
        assert(r@ =~= Seq::<(Seq<char>, V::V)>::empty());
        r
    }

    /// The number of entries.
    pub fn len(&self) -> (n: usize)
        ensures
            n == self@.len(),
    {
        self.entries.len()
    }

    /// The position of the entry stored under `key`.
    pub fn position(&self, key: &String) -> (r: Option<usize>)
        ensures
            match r {
                Some(i) => has_key(self@, key@) && i as int == index_of(self@, key@)
                    && is_first_at(self@, key@, i as int),
                None => !has_key(self@, key@),
            },
    {
        let n = self.entries.len();
        let mut i: usize = 0;
        while i < n
            invariant
                n == self.entries.len(),
                i <= n,
                forall|j: int| 0 <= j < i ==> (#[trigger] self@[j]).0 != key@,
            decreases n - i,
        {
            if self.entries[i].0 == *key {
                proof {
                    lemma_index_of(self@, key@, i as int);
                }
                return Some(i);
            }
            i = i + 1;
        }
        None
    }

    /// The key of the entry at position `i`.
    pub fn key_at(&self, i: usize) -> (r: &String)
        requires
            i < self@.len(),
        ensures
            r@ == self@[i as int].0,
    {
        &self.entries[i].0
    }

    /// The value of the entry at position `i`.
    pub fn value_at(&self, i: usize) -> (r: &V)
        requires
            i < self@.len(),
        ensures
            r@ == self@[i as int].1,
    {
        &self.entries[i].1
    }

    /// The value of the entry at position `i`, for changing it in place.
    pub fn value_at_mut(&mut self, i: usize) -> (r: &mut V)
        requires
            i < old(self)@.len(),
        ensures
            r@ == old(self)@[i as int].1,
            final(self)@ == old(self)@.update(i as int, (old(self)@[i as int].0, final(r)@)),
    {
        &mut self.entries[i].1
    }

    /// The value stored under `key`, if there is one.
    pub fn get(&self, key: &String) -> (r: Option<&V>)
        ensures
            match r {
                Some(v) => has_key(self@, key@) && v@ == value_of(self@, key@),
                None => !has_key(self@, key@),
            },
    {
        match self.position(key) {
            Some(i) => Some(&self.entries[i].1),
            None => None,
        }
    }

    /// Whether an entry is stored under `key`.
    pub fn contains_key(&self, key: &String) -> (r: bool)
        ensures
            r == has_key(self@, key@),
    {
        self.position(key).is_some()
    }

    /// Stores `value` under `key`, replacing what was stored there.
    pub fn insert(&mut self, key: String, value: V)
        ensures
            final(self)@ == upsert(old(self)@, key@, value@),
    {
        match self.position(&key) {
            Some(i) => {
                self.entries[i].1 = value;
                assert(self@ =~= upsert(old(self)@, key@, value@));
            },
            None => {
                self.entries.push((key, value));
                assert(self@ =~= upsert(old(self)@, key@, value@));
            },
        }
    }

    /// Removes the entry stored under `key`, if there is one; where there is
    /// none, the list stays as it is.
    pub fn remove(&mut self, key: &String)
        ensures
            final(self)@ == without(old(self)@, key@),
            !has_key(old(self)@, key@) ==> final(self)@ == old(self)@,
    {
        match self.position(key) {
            Some(i) => {
                let _ = self.entries.remove(i);
                assert(self@ =~= without(old(self)@, key@));
            },
            None => {},
        }
    }

    /// The value stored under `key`, for changing it in place; `fallback` is
    /// stored first where the key is new.
    pub fn entry(&mut self, key: String, fallback: V) -> (r: &mut V)
        ensures
            r@ == value_or(old(self)@, key@, fallback@),
            final(self)@ == upsert(old(self)@, key@, final(r)@),
    {
        let found = self.position(&key);
        let i: usize = match found {
            Some(i) => i,
            None => {
                self.entries.push((key, fallback));
                self.entries.len() - 1
            },
        };
        proof {
            assert(self@[i as int].0 == key@);
            assert forall|v: V::V| #[trigger]
                upsert(old(self)@, key@, v) =~= self@.update(i as int, (key@, v)) by {}
        }
        &mut self.entries[i].1
    }
}

} // verus!
