//! A small keyed store with exact map semantics.

use vstd::prelude::*;
use crate::address::Key;

verus! {

/// The map that a sequence of entries stands for: a key is present when some
/// entry carries it, and its value is that of such an entry.
pub open spec fn entries_map<K, V>(s: Seq<(K, V)>) -> Map<K, V> {
    Map::new(
        |k: K| exists|i: int| 0 <= i < s.len() && (#[trigger] s[i]).0 == k,
        |k: K| s[choose|i: int| 0 <= i < s.len() && (#[trigger] s[i]).0 == k].1,
    )
}

/// No key occurs in two entries.
pub open spec fn keys_distinct<K, V>(s: Seq<(K, V)>) -> bool {
    forall|i: int, j: int| 0 <= i < j < s.len() ==> (#[trigger] s[i]).0 != (#[trigger] s[j]).0
}

/// With distinct keys, every entry is what the map holds at its key.
pub proof fn lemma_entry_in_map<K, V>(s: Seq<(K, V)>, i: int)
    requires
        keys_distinct(s),
        0 <= i < s.len(),
    ensures
        entries_map(s).contains_key(s[i].0),
        entries_map(s)[s[i].0] == s[i].1,
{
    let k = s[i].0;
    let j = choose|j: int| 0 <= j < s.len() && (#[trigger] s[j]).0 == k;
    assert(j == i);
}

/// A sequence of entries with distinct keys stands for `m` when each of its
/// entries is in `m` and it carries every key of `m`.
proof fn lemma_same_map<K, V>(s: Seq<(K, V)>, m: Map<K, V>)
    requires
        keys_distinct(s),
        forall|i: int|
            0 <= i < s.len() ==> m.contains_key(#[trigger] s[i].0) && m[s[i].0] == s[i].1,
        forall|k: K| #[trigger] m.contains_key(k) ==> entries_map(s).contains_key(k),
    ensures
        entries_map(s) == m,
{
    assert forall|k: K| #[trigger] entries_map(s).contains_key(k) implies m.contains_key(k)
        && m[k] == entries_map(s)[k] by {
        let j = choose|j: int| 0 <= j < s.len() && (#[trigger] s[j]).0 == k;
        lemma_entry_in_map(s, j);
    }
    assert(entries_map(s) =~= m);
}

/// Replacing the value of an entry is an insertion at its key.
pub proof fn lemma_update_entry<K, V>(s: Seq<(K, V)>, i: int, value: V)
    requires
        keys_distinct(s),
        0 <= i < s.len(),
    ensures
        keys_distinct(s.update(i, (s[i].0, value))),
        entries_map(s.update(i, (s[i].0, value))) == entries_map(s).insert(s[i].0, value),
{
    let key = s[i].0;
    let t = s.update(i, (key, value));
    assert forall|a: int, b: int| 0 <= a < b < t.len() implies #[trigger] t[a].0
        != #[trigger] t[b].0 by {
        assert(t[a].0 == s[a].0 && t[b].0 == s[b].0);
    }
    let m = entries_map(s).insert(key, value);
    assert forall|j: int| 0 <= j < t.len() implies m.contains_key(#[trigger] t[j].0)
        && m[t[j].0] == t[j].1 by {
        lemma_entry_in_map(s, j);
    }
    assert forall|k: K| #[trigger] m.contains_key(k) implies entries_map(t).contains_key(k) by {
        if k == key {
            assert(t[i].0 == k);
        } else {
            let j = choose|j: int| 0 <= j < s.len() && (#[trigger] s[j]).0 == k;
            assert(t[j].0 == k);
        }
    }
    lemma_same_map(t, m);
}

/// Appending an entry under a new key is an insertion at that key.
pub proof fn lemma_push_entry<K, V>(s: Seq<(K, V)>, key: K, value: V)
    requires
        keys_distinct(s),
        !entries_map(s).contains_key(key),
    ensures
        keys_distinct(s.push((key, value))),
        entries_map(s.push((key, value))) == entries_map(s).insert(key, value),
{
    let t = s.push((key, value));
    let last = s.len() as int;
    assert forall|a: int, b: int| 0 <= a < b < t.len() implies #[trigger] t[a].0
        != #[trigger] t[b].0 by {
        assert(t[a] == s[a]);
        if b == last {
            lemma_entry_in_map(s, a);
        } else {
            assert(t[b] == s[b]);
        }
    }
    let m = entries_map(s).insert(key, value);
    assert forall|j: int| 0 <= j < t.len() implies m.contains_key(#[trigger] t[j].0)
        && m[t[j].0] == t[j].1 by {
        if j != last {
            assert(t[j] == s[j]);
            lemma_entry_in_map(s, j);
        }
    }
    assert forall|k: K| #[trigger] m.contains_key(k) implies entries_map(t).contains_key(k) by {
        if k == key {
            assert(t[last].0 == k);
        } else {
            let j = choose|j: int| 0 <= j < s.len() && (#[trigger] s[j]).0 == k;
            assert(t[j].0 == k);
        }
    }
    lemma_same_map(t, m);
}

/// Taking an entry out is a removal of its key.
pub proof fn lemma_remove_entry<K, V>(s: Seq<(K, V)>, i: int)
    requires
        keys_distinct(s),
        0 <= i < s.len(),
    ensures
        keys_distinct(s.remove(i)),
        entries_map(s.remove(i)) == entries_map(s).remove(s[i].0),
{
    let key = s[i].0;
    let t = s.remove(i);
    assert forall|a: int, b: int| 0 <= a < b < t.len() implies #[trigger] t[a].0
        != #[trigger] t[b].0 by {
        assert(t[a] == s[if a < i { a } else { a + 1 }]);
        assert(t[b] == s[if b < i { b } else { b + 1 }]);
    }
    let m = entries_map(s).remove(key);
    assert forall|j: int| 0 <= j < t.len() implies m.contains_key(#[trigger] t[j].0)
        && m[t[j].0] == t[j].1 by {
        let j0 = if j < i { j } else { j + 1 };
        assert(t[j] == s[j0]);
        lemma_entry_in_map(s, j0);
    }
    assert forall|k: K| #[trigger] m.contains_key(k) implies entries_map(t).contains_key(k) by {
        let j = choose|j: int| 0 <= j < s.len() && (#[trigger] s[j]).0 == k;
        let j1 = if j < i { j } else { j - 1 };
        assert(t[j1] == s[j]);
        assert(t[j1].0 == k);
    }
    lemma_same_map(t, m);
}

/// A keyed store whose view is a finite map from keys to values.
pub struct Registry<K, V> {
    entries: Vec<(K, V)>,
}

impl<K: Key, V: Copy> Registry<K, V> {
    /// The map that the registry holds.
    pub closed spec fn view(&self) -> Map<K, V> {
        entries_map(self.entries@)
    }

    /// Internal consistency: each key is stored once.
    pub closed spec fn wf(&self) -> bool {
        keys_distinct(self.entries@)
    }

    /// An empty registry.
    pub fn new() -> (r: Self)
        ensures
            r.wf(),
            r@ == Map::<K, V>::empty(),
    {
        let r = Registry { entries: Vec::new() };
        assert(r@ =~= Map::<K, V>::empty());
        r
    }

    /// Position of `key` among the entries, if it is stored.
    fn position(&self, key: &K) -> (r: Option<usize>)
        requires
            self.wf(),
        ensures
            match r {
                Some(i) => i < self.entries@.len() && self.entries@[i as int].0 == *key,
                None => !self@.contains_key(*key),
            },
    {
        let n: usize = self.entries.len();
        let mut i: usize = 0;
        while i < n
            invariant
                i <= n,
                n == self.entries@.len(),
                forall|j: int| 0 <= j < i ==> (#[trigger] self.entries@[j]).0 != *key,
            decreases n - i,
        {
            if self.entries[i].0.same(key) {
                return Some(i);
            }
            i += 1;
        }
        None
    }

    /// The value stored under `key`, if any.
    pub fn get(&self, key: &K) -> (r: Option<V>)
        requires
            self.wf(),
        ensures
            r == (if self@.contains_key(*key) {
                Some(self@[*key])
            } else {
                None
            }),
    {
        match self.position(key) {
            Some(i) => {
                proof {
                    lemma_entry_in_map(self.entries@, i as int);
                }
                Some(self.entries[i].1)
            },
            None => None,
        }
    }

    /// Whether `key` is stored.
    pub fn contains(&self, key: &K) -> (r: bool)
        requires
            self.wf(),
        ensures
            r == self@.contains_key(*key),
    {
        match self.position(key) {
            Some(i) => {
                proof {
                    lemma_entry_in_map(self.entries@, i as int);
                }
                true
            },
            None => false,
        }
    }

    /// Stores `value` under `key`, replacing what was there.
    pub fn set(&mut self, key: K, value: V)
        requires
            old(self).wf(),
        ensures
            final(self).wf(),
            final(self)@ == old(self)@.insert(key, value),
    {
        match self.position(&key) {
            Some(i) => {
                proof {
                    lemma_update_entry(self.entries@, i as int, value);
                }
                self.entries[i] = (key, value);
            },
            None => {
                proof {
                    lemma_push_entry(self.entries@, key, value);
                }
                self.entries.push((key, value));
            },
        }
    }

    /// Takes `key` out of the registry and returns what was stored under it.
    pub fn remove(&mut self, key: &K) -> (r: Option<V>)
        requires
            old(self).wf(),
        ensures
            final(self).wf(),
            final(self)@ == old(self)@.remove(*key),
            r == (if old(self)@.contains_key(*key) {
                Some(old(self)@[*key])
            } else {
                None
            }),
    {
        match self.position(key) {
            Some(i) => {
                proof {
                    lemma_entry_in_map(self.entries@, i as int);
                    lemma_remove_entry(self.entries@, i as int);
                }
                let entry = self.entries.remove(i);
                Some(entry.1)
            },
            None => {
                assert(self@ =~= self@.remove(*key));
                None
            },
        }
    }

    /// A separate registry with the same contents.
    pub fn duplicate(&self) -> (r: Self)
        requires
            self.wf(),
        ensures
            r.wf(),
            r@ == self@,
    {
        let n: usize = self.entries.len();
        let mut entries: Vec<(K, V)> = Vec::new();
        let mut i: usize = 0;
        while i < n
            invariant
                i <= n,
                n == self.entries@.len(),
                entries@ == self.entries@.subrange(0, i as int),
            decreases n - i,
        {
            let e = self.entries[i];
            entries.push(e);
            assert(entries@ =~= self.entries@.subrange(0, i as int + 1));
            i += 1;
        }
        assert(entries@ =~= self.entries@);
        Registry { entries }
    }
}

} // verus!
