//! An insertion-ordered map keyed by strings.
//!
//! Keys are compared by their characters. An entry keeps the position at
//! which its key was first inserted, so walking the entries is deterministic.

use vstd::prelude::*;
use vstd::string::StringExecFns;

verus! {

/// Some entry of `m` has the key `key`.
pub open spec fn has_key<K, V>(m: Seq<(K, V)>, key: K) -> bool {
    exists|i: int| 0 <= i < m.len() && (#[trigger] m[i]).0 == key
}

/// No two entries of `m` share a key.
pub open spec fn distinct_keys<K, V>(m: Seq<(K, V)>) -> bool {
    forall|i: int, j: int| 0 <= i < j < m.len() ==> (#[trigger] m[i]).0 != (#[trigger] m[j]).0
}

/// The entry at `i` is the first of `m` with the key `key`.
pub open spec fn is_first_key<K, V>(m: Seq<(K, V)>, key: K, i: int) -> bool {
    &&& 0 <= i < m.len()
    &&& m[i].0 == key
    &&& forall|k: int| 0 <= k < i ==> (#[trigger] m[k]).0 != key
}

/// The position of the first entry of `m` with the key `key`.
pub open spec fn key_index<K, V>(m: Seq<(K, V)>, key: K) -> int {
    choose|i: int| is_first_key(m, key, i)
}

/// The value stored under `key`, if any.
pub open spec fn lookup<K, V>(m: Seq<(K, V)>, key: K) -> Option<V> {
    if has_key(m, key) {
        Some(m[key_index(m, key)].1)
    } else {
        None
    }
}

/// `m` after storing `value` under `key`: an existing entry is overwritten
/// in place, a new one goes to the end.
pub open spec fn put<K, V>(m: Seq<(K, V)>, key: K, value: V) -> Seq<(K, V)> {
    if has_key(m, key) {
        m.update(key_index(m, key), (key, value))
    } else {
        m.push((key, value))
    }
}

/// The first entry with a key is the one that `key_index` picks.
pub proof fn lemma_first_key<K, V>(m: Seq<(K, V)>, key: K, i: int)
    requires
        is_first_key(m, key, i),
    ensures
        has_key(m, key),
        key_index(m, key) == i,
        lookup(m, key) == Some(m[i].1),
{
    let j = key_index(m, key);
    assert(is_first_key(m, key, j));
    if j < i {
        assert(m[j].0 != key);
    } else if i < j {
        assert(m[i].0 != key);
    }
}

/// A key that occurs has a first occurrence, which `key_index` picks.
pub proof fn lemma_has_key<K, V>(m: Seq<(K, V)>, key: K)
    requires
        has_key(m, key),
    ensures
        is_first_key(m, key, key_index(m, key)),
{
    let w = choose|i: int| 0 <= i < m.len() && (#[trigger] m[i]).0 == key;
    lemma_first_before(m, key, w);
}

proof fn lemma_first_before<K, V>(m: Seq<(K, V)>, key: K, w: int)
    requires
        0 <= w < m.len(),
        m[w].0 == key,
    ensures
        exists|i: int| is_first_key(m, key, i),
    decreases w,
{
    if exists|k: int| 0 <= k < w && (#[trigger] m[k]).0 == key {
        let k = choose|k: int| 0 <= k < w && (#[trigger] m[k]).0 == key;
        lemma_first_before(m, key, k);
    } else {
        assert(is_first_key(m, key, w));
    }
}

/// With distinct keys, the entry at `i` is the one `key_index` picks.
pub proof fn lemma_key_index<K, V>(m: Seq<(K, V)>, i: int)
    requires
        distinct_keys(m),
        0 <= i < m.len(),
    ensures
        has_key(m, m[i].0),
        key_index(m, m[i].0) == i,
        lookup(m, m[i].0) == Some(m[i].1),
{
    assert forall|k: int| 0 <= k < i implies (#[trigger] m[k]).0 != m[i].0 by {}
    lemma_first_key(m, m[i].0, i);
}

/// Storing puts the value under the key, leaves the other keys alone, and
/// keeps distinct keys distinct.
pub proof fn lemma_put<K, V>(m: Seq<(K, V)>, key: K, value: V)
    ensures
        distinct_keys(m) ==> distinct_keys(put(m, key, value)),
        has_key(put(m, key, value), key),
        lookup(put(m, key, value), key) == Some(value),
        forall|other: K| other != key ==> lookup(put(m, key, value), other) == lookup(m, other),
{
    let r = put(m, key, value);
    let k = if has_key(m, key) {
        key_index(m, key)
    } else {
        m.len() as int
    };
    if has_key(m, key) {
        lemma_has_key(m, key);
    }
    assert forall|i: int| 0 <= i < m.len() implies (#[trigger] r[i]).0 == m[i].0 by {}
    assert(is_first_key(r, key, k)) by {
        assert forall|a: int| 0 <= a < k implies (#[trigger] r[a]).0 != key by {
            assert(m[a].0 != key);
        }
    }
    lemma_first_key(r, key, k);
    if distinct_keys(m) {
        assert forall|i: int, j: int| 0 <= i < j < r.len() implies (#[trigger] r[i]).0 != (
        #[trigger] r[j]).0 by {
            if j < m.len() {
                assert(m[i].0 != m[j].0);
            } else {
                assert(r[i].0 == m[i].0);
            }
        }
    }
    assert forall|other: K| other != key implies lookup(r, other) == lookup(m, other) by {
        if has_key(m, other) {
            lemma_has_key(m, other);
            let o = key_index(m, other);
            assert(r[o] == m[o]);
            assert(is_first_key(r, other, o)) by {
                assert forall|a: int| 0 <= a < o implies (#[trigger] r[a]).0 != other by {
                    assert(m[a].0 != other);
                }
            }
            lemma_first_key(r, other, o);
        } else if has_key(r, other) {
            let o = choose|i: int| 0 <= i < r.len() && (#[trigger] r[i]).0 == other;
            assert(m[o].0 == other);
        }
    }
}

/// `m` with `f` applied to every value.
pub open spec fn map_entries<K, V, W>(m: Seq<(K, V)>, f: spec_fn(V) -> W) -> Seq<(K, W)> {
    m.map_values(|e: (K, V)| (e.0, f(e.1)))
}

/// Mapping the values changes neither which keys are present nor where.
pub proof fn lemma_map_entries<K, V, W>(m: Seq<(K, V)>, f: spec_fn(V) -> W, key: K)
    ensures
        distinct_keys(map_entries(m, f)) == distinct_keys(m),
        has_key(map_entries(m, f), key) == has_key(m, key),
        has_key(m, key) ==> key_index(map_entries(m, f), key) == key_index(m, key),
        lookup(map_entries(m, f), key) == match lookup(m, key) {
            Some(v) => Some(f(v)),
            None => None,
        },
{
    let r = map_entries(m, f);
    assert forall|i: int| 0 <= i < m.len() implies (#[trigger] r[i]).0 == m[i].0 by {}
    if distinct_keys(m) {
        assert forall|i: int, j: int| 0 <= i < j < r.len() implies (#[trigger] r[i]).0 != (
        #[trigger] r[j]).0 by {
            assert(m[i].0 != m[j].0);
        }
    }
    if distinct_keys(r) {
        assert forall|i: int, j: int| 0 <= i < j < m.len() implies (#[trigger] m[i]).0 != (
        #[trigger] m[j]).0 by {
            assert(r[i].0 != r[j].0);
        }
    }
    if has_key(m, key) {
        lemma_has_key(m, key);
        let i = key_index(m, key);
        assert(is_first_key(r, key, i)) by {
            assert forall|a: int| 0 <= a < i implies (#[trigger] r[a]).0 != key by {
                assert(m[a].0 != key);
            }
        }
        lemma_first_key(r, key, i);
    }
    if has_key(r, key) {
        let i = choose|i: int| 0 <= i < r.len() && (#[trigger] r[i]).0 == key;
        assert(m[i].0 == key);
    }
}

/// Storing and then mapping is the same as mapping and then storing.
pub proof fn lemma_map_put<K, V, W>(m: Seq<(K, V)>, f: spec_fn(V) -> W, key: K, value: V)
    ensures
        map_entries(put(m, key, value), f) == put(map_entries(m, f), key, f(value)),
{
    lemma_map_entries(m, f, key);
    if has_key(m, key) {
        lemma_has_key(m, key);
    }
    assert(map_entries(put(m, key, value), f) =~= put(map_entries(m, f), key, f(value)));
}

/// An insertion-ordered map from strings to `V`. With `==`, two maps are
/// compared entry by entry, in their order.
#[derive(Debug, Clone, PartialEq)]
pub struct KeyedList<V> {
    entries: Vec<(String, V)>,
}

impl<V> View for KeyedList<V> {
    type V = Seq<(Seq<char>, V)>;

    closed spec fn view(&self) -> Seq<(Seq<char>, V)> {
        self.entries@.map_values(|e: (String, V)| (e.0@, e.1))
    }
}

impl<V> KeyedList<V> {
    /// No key occurs twice.
    pub open spec fn wf(&self) -> bool {
        distinct_keys(self@)
    }

    /// An empty map.
    pub fn new() -> (r: Self)
        ensures
            r@ == Seq::<(Seq<char>, V)>::empty(),
            r.wf(),
    {
        let r = KeyedList { entries: Vec::new() };
        assert(r@ =~= Seq::<(Seq<char>, V)>::empty());
        r
    }

    /// Number of entries.
    pub fn len(&self) -> (n: usize)
        ensures
            n == self@.len(),
    {
        self.entries.len()
    }

    /// Whether there is no entry.
    pub fn is_empty(&self) -> (r: bool)
        ensures
            r == (self@.len() == 0),
    {
        self.entries.len() == 0
    }

    /// The key of the entry at `i`.
    pub fn key_at(&self, i: usize) -> (k: &String)
        requires
            i < self@.len(),
        ensures
            k@ == self@[i as int].0,
    {
        &self.entries[i].0
    }

    /// The value of the entry at `i`.
    pub fn value_at(&self, i: usize) -> (v: &V)
        requires
            i < self@.len(),
        ensures
            *v == self@[i as int].1,
    {
        &self.entries[i].1
    }

    /// The position of the entry stored under `key`.
    pub fn position(&self, key: &str) -> (r: Option<usize>)
        ensures
            r.is_some() == has_key(self@, key@),
            r matches Some(i) ==> i < self@.len() && i == key_index(self@, key@) && self@[i as int].0
                == key@,
    {
        let wanted = String::from_str(key);
        let mut i: usize = 0;
        while i < self.entries.len()
            invariant
                i <= self.entries.len(),
                wanted@ == key@,
                forall|k: int| 0 <= k < i ==> (#[trigger] self@[k]).0 != key@,
            decreases self.entries.len() - i,
        {
            if self.entries[i].0 == wanted {
                proof {
                    assert(self@[i as int].0 == key@);
                    lemma_first_key(self@, key@, i as int);
                }
                return Some(i);
            }
            i += 1;
        }
        None
    }

    /// Whether an entry is stored under `key`.
    pub fn contains_key(&self, key: &str) -> (r: bool)
        ensures
            r == has_key(self@, key@),
    {
        self.position(key).is_some()
    }

    /// The value stored under `key`.
    pub fn get(&self, key: &str) -> (r: Option<&V>)
        ensures
            r.is_some() == has_key(self@, key@),
            r matches Some(v) ==> lookup(self@, key@) == Some(*v),
            r is None ==> lookup(self@, key@) is None,
    {
        match self.position(key) {
            Some(i) => Some(&self.entries[i].1),
            None => None,
        }
    }

    /// Stores `value` under `key` and returns the value it replaces.
    pub fn insert(&mut self, key: String, value: V) -> (r: Option<V>)
        ensures
            old(self).wf() ==> final(self).wf(),
            final(self)@ == put(old(self)@, key@, value),
            r == lookup(old(self)@, key@),
    {
        proof {
            lemma_put(self@, key@, value);
        }
        match self.position(key.as_str()) {
            Some(i) => {
                let old_entry = self.entries.remove(i);
                self.entries.insert(i, (key, value));
                assert(self@ =~= put(old(self)@, key@, value));
                Some(old_entry.1)
            },
            None => {
                self.entries.push((key, value));
                assert(self@ =~= put(old(self)@, key@, value));
                None
            },
        }
    }

    /// Removes every entry.
    pub fn clear(&mut self)
        ensures
            final(self)@ == Seq::<(Seq<char>, V)>::empty(),
            final(self).wf(),
    {
        self.entries.clear();
        assert(self@ =~= Seq::<(Seq<char>, V)>::empty());
    }
}

/// An insertion-ordered map from strings to strings. With `==`, two maps
/// are compared entry by entry, in their order.
#[derive(Debug, PartialEq)]
pub struct StringMap {
    inner: KeyedList<String>,
}

impl View for StringMap {
    type V = Seq<(Seq<char>, Seq<char>)>;

    closed spec fn view(&self) -> Seq<(Seq<char>, Seq<char>)> {
        map_entries(self.inner@, |s: String| s@)
    }
}

impl Clone for StringMap {
    fn clone(&self) -> (r: Self)
        ensures
            r@ == self@,
    {
        let mut entries: Vec<(String, String)> = Vec::new();
        let mut i: usize = 0;
        while i < self.inner.entries.len()
            invariant
                i <= self.inner.entries.len(),
                entries@.len() == i,
                forall|k: int| 0 <= k < i ==> entries@[k] == self.inner.entries@[k],
            decreases self.inner.entries.len() - i,
        {
            let key = self.inner.entries[i].0.clone();
            let value = self.inner.entries[i].1.clone();
            entries.push((key, value));
            i += 1;
        }
        assert(entries@ =~= self.inner.entries@);
        StringMap { inner: KeyedList { entries } }
    }
}

impl StringMap {
    /// No key occurs twice.
    pub open spec fn wf(&self) -> bool {
        distinct_keys(self@)
    }

    proof fn lemma_inner(&self, key: Seq<char>)
        ensures
            self.wf() == self.inner.wf(),
            self@.len() == self.inner@.len(),
            has_key(self@, key) == has_key(self.inner@, key),
            has_key(self@, key) ==> key_index(self@, key) == key_index(self.inner@, key),
            lookup(self@, key) == match lookup(self.inner@, key) {
                Some(v) => Some(v@),
                None => None,
            },
            forall|i: int|
                0 <= i < self@.len() ==> (#[trigger] self@[i]).0 == self.inner@[i].0 && self@[i].1
                    == self.inner@[i].1@,
    {
        lemma_map_entries(self.inner@, |s: String| s@, key);
    }

    /// An empty map.
    pub fn new() -> (r: Self)
        ensures
            r@ == Seq::<(Seq<char>, Seq<char>)>::empty(),
            r.wf(),
    {
        let r = StringMap { inner: KeyedList::new() };
        assert(r@ =~= Seq::<(Seq<char>, Seq<char>)>::empty());
        r
    }

    /// Number of entries.
    pub fn len(&self) -> (n: usize)
        ensures
            n == self@.len(),
    {
        self.inner.len()
    }

    /// Whether there is no entry.
    pub fn is_empty(&self) -> (r: bool)
        ensures
            r == (self@.len() == 0),
    {
        self.inner.is_empty()
    }

    /// The key of the entry at `i`.
    pub fn key_at(&self, i: usize) -> (k: &String)
        requires
            i < self@.len(),
        ensures
            k@ == self@[i as int].0,
    {
        self.inner.key_at(i)
    }

    /// The value of the entry at `i`.
    pub fn value_at(&self, i: usize) -> (v: &String)
        requires
            i < self@.len(),
        ensures
            v@ == self@[i as int].1,
    {
        self.inner.value_at(i)
    }

    /// Whether an entry is stored under `key`.
    pub fn contains_key(&self, key: &str) -> (r: bool)
        ensures
            r == has_key(self@, key@),
    {
        proof {
            self.lemma_inner(key@);
        }
        self.inner.contains_key(key)
    }

    /// The value stored under `key`.
    pub fn get(&self, key: &str) -> (r: Option<&String>)
        ensures
            r.is_some() == has_key(self@, key@),
            r matches Some(v) ==> lookup(self@, key@) == Some(v@),
            r is None ==> lookup(self@, key@) is None,
    {
        proof {
            self.lemma_inner(key@);
        }
        self.inner.get(key)
    }

    /// Stores `value` under `key`.
    pub fn insert(&mut self, key: String, value: String)
        ensures
            old(self).wf() ==> final(self).wf(),
            final(self)@ == put(old(self)@, key@, value@),
    {
        proof {
            self.lemma_inner(key@);
            lemma_map_put(self.inner@, |s: String| s@, key@, value);
            lemma_put(self@, key@, value@);
        }
        self.inner.insert(key, value);
    }

    /// Removes every entry.
    pub fn clear(&mut self)
        ensures
            final(self)@ == Seq::<(Seq<char>, Seq<char>)>::empty(),
            final(self).wf(),
    {
        self.inner.clear();
        assert(self@ =~= Seq::<(Seq<char>, Seq<char>)>::empty());
    }
}

} // verus!
