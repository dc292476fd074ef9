//! A map keyed by strings that remembers the order in which keys first came.

use vstd::prelude::*;

verus! {

/// No key occurs twice among the entries.
pub open spec fn keys_distinct<V>(s: Seq<(Seq<char>, V)>) -> bool {
    forall|i: int, j: int|
        0 <= i < s.len() && 0 <= j < s.len() && i != j ==> #[trigger] s[i].0 != #[trigger] s[j].0
}

/// Some entry has the key `k`.
pub open spec fn has_key<V>(s: Seq<(Seq<char>, V)>, k: Seq<char>) -> bool {
    exists|i: int| 0 <= i < s.len() && #[trigger] s[i].0 == k
}

/// The position of the entry with key `k`, where there is one.
pub open spec fn key_position<V>(s: Seq<(Seq<char>, V)>, k: Seq<char>) -> int {
    choose|i: int| 0 <= i < s.len() && #[trigger] s[i].0 == k
}

/// The value stored under `k`.
pub open spec fn lookup<V>(s: Seq<(Seq<char>, V)>, k: Seq<char>) -> Option<V> {
    if has_key(s, k) {
        Some(s[key_position(s, k)].1)
    } else {
        None
    }
}

/// The entries after storing `v` under `k`: an existing entry keeps its place
/// and takes the new value, a new key goes to the end.
pub open spec fn inserted<V>(s: Seq<(Seq<char>, V)>, k: Seq<char>, v: V) -> Seq<(Seq<char>, V)> {
    if has_key(s, k) {
        s.update(key_position(s, k), (k, v))
    } else {
        s.push((k, v))
    }
}

/// A map from strings to values. Its view is the sequence of its entries,
/// each key with its value, in the order in which the keys were first stored.
#[derive(Debug)]
pub struct StringMap<V> {
    entries: Vec<(String, V)>,
}

impl<V> View for StringMap<V> {
    type V = Seq<(Seq<char>, V)>;

    closed spec fn view(&self) -> Seq<(Seq<char>, V)> {
        self.entries@.map_values(|e: (String, V)| (e.0@, e.1))
    }
}

impl<V> StringMap<V> {
    #[verifier::type_invariant]
    pub open spec fn well_formed(self) -> bool {
        keys_distinct(self@)
    }

    /// An empty map.
    pub fn new() -> (r: Self)
        ensures
            r@ == Seq::<(Seq<char>, V)>::empty(),
    {
        let r = StringMap { entries: Vec::new() };
        assert(r@ =~= Seq::<(Seq<char>, V)>::empty());
        r
    }

    /// The number of entries.
    pub fn len(&self) -> (r: usize)
        ensures
            r == self@.len(),
    {
        self.entries.len()
    }

    /// There is no entry.
    pub fn is_empty(&self) -> (r: bool)
        ensures
            r == (self@.len() == 0),
    {
        self.entries.len() == 0
    }

    fn position(&self, key: &String) -> (r: Option<usize>)
        ensures
            match r {
                Some(i) => i < self@.len() && self@[i as int].0 == key@,
                None => !has_key(self@, key@),
            },
    {
        let mut i: usize = 0;
        while i < self.entries.len()
            invariant
                i <= self@.len(),
                self@.len() == self.entries@.len(),
                forall|k: int| 0 <= k < i ==> self@[k].0 != key@,
            decreases self@.len() - i,
        {
            if self.entries[i].0 == *key {
                return Some(i);
            }
            i = i + 1;
        }
        None
    }

    /// Stores `value` under `key`, replacing what was stored there before
    /// (`HashMap::insert`).
    pub fn insert(&mut self, key: String, value: V)
        ensures
            final(self)@ == inserted(old(self)@, key@, value),
    {
        proof {
            use_type_invariant(&*self);
        }
        let ghost before = self@;
        match self.position(&key) {
            Some(i) => {
                proof {
                    let p = key_position(before, key@);
                    assert(before[i as int].0 == key@);
                    assert(p == i as int);
                }
                let ghost k = key@;
                let mut entries: Vec<(String, V)> = Vec::new();
                std::mem::swap(&mut entries, &mut self.entries);
                entries.set(i, (key, value));
                proof {
                    let now = entries@.map_values(|e: (String, V)| (e.0@, e.1));
                    assert(now =~= before.update(i as int, (k, value)));
                    assert forall|a: int, b: int|
                        0 <= a < now.len() && 0 <= b < now.len() && a != b implies
                        #[trigger] now[a].0 != #[trigger] now[b].0 by {
                        if a != i && b != i {
                            assert(now[a] == before[a] && now[b] == before[b]);
                        } else if a == i {
                            assert(now[b] == before[b]);
                        } else {
                            assert(now[a] == before[a]);
                        }
                    }
                }
                self.entries = entries;
                assert(self@ =~= before.update(i as int, (k, value)));
            },
            None => {
                let ghost k = key@;
                let mut entries: Vec<(String, V)> = Vec::new();
                std::mem::swap(&mut entries, &mut self.entries);
                entries.push((key, value));
                proof {
                    let now = entries@.map_values(|e: (String, V)| (e.0@, e.1));
                    assert(now =~= before.push((k, value)));
                    assert forall|a: int, b: int|
                        0 <= a < now.len() && 0 <= b < now.len() && a != b implies
                        #[trigger] now[a].0 != #[trigger] now[b].0 by {
                        if a < before.len() && b < before.len() {
                            assert(now[a] == before[a] && now[b] == before[b]);
                        } else if a < before.len() {
                            assert(now[a] == before[a]);
                        } else {
                            assert(now[b] == before[b]);
                        }
                    }
                }
                self.entries = entries;
                assert(self@ =~= before.push((k, value)));
            },
        }
    }

    /// The value stored under `key`.
    pub fn get(&self, key: &String) -> (r: Option<&V>)
        ensures
            match r {
                Some(v) => lookup(self@, key@) == Some(*v),
                None => lookup(self@, key@) is None,
            },
    {
        proof {
            use_type_invariant(self);
        }
        match self.position(key) {
            Some(i) => {
                proof {
                    let p = key_position(self@, key@);
                    assert(self@[i as int].0 == key@);
                    assert(p == i as int);
                }
                Some(&self.entries[i].1)
            },
            None => None,
        }
    }

    /// Some entry has the key `key`.
    pub fn contains_key(&self, key: &String) -> (r: bool)
        ensures
            r == has_key(self@, key@),
    {
        self.position(key).is_some()
    }

    /// The key of the entry at position `i`.
    pub fn key_at(&self, i: usize) -> (r: &String)
        requires
            i < self@.len(),
        ensures
            r@ == self@[i as int].0,
    {
        &self.entries[i].0
    }

    /// The value of the entry at position `i`.
    pub fn value_at(&self, i: usize) -> (r: &V)
        requires
            i < self@.len(),
        ensures
            *r == self@[i as int].1,
    {
        &self.entries[i].1
    }

    /// The entries, in order.
    pub fn into_entries(self) -> (r: Vec<(String, V)>)
        ensures
            r@.len() == self@.len(),
            forall|i: int|
                0 <= i < r@.len() ==> (#[trigger] r@[i]).0@ == self@[i].0 && r@[i].1 == self@[i].1,
    {
        self.entries
    }
}

impl<V: Clone> Clone for StringMap<V> {
    /// A copy with the same keys in the same order, each value cloned.
    fn clone(&self) -> (r: Self)
        ensures
            r@.len() == self@.len(),
            forall|i: int|
                0 <= i < self@.len() ==> (#[trigger] r@[i]).0 == self@[i].0 && cloned(self@[i].1, r@[i].1),
    {
        proof {
            use_type_invariant(self);
        }
        let mut entries: Vec<(String, V)> = Vec::new();
        let mut i: usize = 0;
        while i < self.entries.len()
            invariant
                i <= self.entries@.len(),
                entries@.len() == i,
                forall|k: int|
                    0 <= k < i ==> (#[trigger] entries@[k]).0@ == self.entries@[k].0@ && cloned(
                        self.entries@[k].1,
                        entries@[k].1,
                    ),
            decreases self.entries@.len() - i,
        {
            let key = self.entries[i].0.clone();
            let value = self.entries[i].1.clone();
            entries.push((key, value));
            i = i + 1;
        }
        let ghost before = self@;
        let ghost after = entries@.map_values(|e: (String, V)| (e.0@, e.1));
        assert forall|a: int, b: int|
            0 <= a < after.len() && 0 <= b < after.len() && a != b implies #[trigger] after[a].0
            != #[trigger] after[b].0 by {
            assert(after[a].0 == before[a].0);
            assert(after[b].0 == before[b].0);
        }
        StringMap { entries }
    }
}

/// Storing a value and then looking up its key gives that value back; the
/// other keys keep their values; no key comes to occur twice.
pub proof fn lemma_lookup_after_insert<V>(s: Seq<(Seq<char>, V)>, k: Seq<char>, v: V, other: Seq<char>)
    requires
        keys_distinct(s),
    ensures
        lookup(inserted(s, k, v), k) == Some(v),
        other != k ==> lookup(inserted(s, k, v), other) == lookup(s, other),
        keys_distinct(inserted(s, k, v)),
        has_key(inserted(s, k, v), other) == (has_key(s, other) || other == k),
{
    let t = inserted(s, k, v);
    if has_key(s, k) {
        let p = key_position(s, k);
        assert(t[p].0 == k);
        assert(has_key(t, k));
        let q = key_position(t, k);
        assert(q == p);
        if has_key(s, other) && other != k {
            let a = key_position(s, other);
            assert(t[a] == s[a]);
            let b = key_position(t, other);
            assert(t[b].0 == other);
            assert(b == a);
        }
        if has_key(t, other) && other != k {
            let b = key_position(t, other);
            assert(s[b].0 == other);
        }
    } else {
        let n = s.len() as int;
        assert(t[n].0 == k);
        assert(has_key(t, k));
        let q = key_position(t, k);
        assert(q == n);
        if has_key(s, other) && other != k {
            let a = key_position(s, other);
            assert(t[a] == s[a]);
            let b = key_position(t, other);
            assert(b == a);
        }
        if has_key(t, other) && other != k {
            let b = key_position(t, other);
            assert(b < n);
            assert(s[b].0 == other);
        }
    }
}

} // verus!
