//! Keyed tables that keep their entries in the order of insertion.

use vstd::prelude::*;

verus! {

/// A key of a [`Table`]: a plain value that can be told apart from another.
pub trait Key: Sized {
    fn same(&self, other: &Self) -> (r: bool)
        ensures
            r == (*self == *other),
    ;
}

impl Key for u32 {
    fn same(&self, other: &Self) -> (r: bool) {
        *self == *other
    }
}

impl Key for (u32, u32) {
    fn same(&self, other: &Self) -> (r: bool) {
        self.0 == other.0 && self.1 == other.1
    }
}

impl Key for (u64, u32) {
    fn same(&self, other: &Self) -> (r: bool) {
        self.0 == other.0 && self.1 == other.1
    }
}

impl Key for (u64, u32, u32) {
    fn same(&self, other: &Self) -> (r: bool) {
        self.0 == other.0 && self.1 == other.1 && self.2 == other.2
    }
}

/// No key occurs twice in `s`.
pub open spec fn unique_keys<K, V>(s: Seq<(K, V)>) -> bool {
    forall|i: int, j: int| 0 <= i < j < s.len() ==> (#[trigger] s[i]).0 != (#[trigger] s[j]).0
}

/// `s` has an entry under `k`.
pub open spec fn has_key<K, V>(s: Seq<(K, V)>, k: K) -> bool {
    exists|i: int| 0 <= i < s.len() && (#[trigger] s[i]).0 == k
}

/// The place of an entry under `k` in `s`, where there is one.
pub open spec fn position<K, V>(s: Seq<(K, V)>, k: K) -> int {
    choose|i: int| 0 <= i < s.len() && (#[trigger] s[i]).0 == k
}

/// The value under `k` in `s`.
pub open spec fn lookup<K, V>(s: Seq<(K, V)>, k: K) -> Option<V> {
    if has_key(s, k) {
        Some(s[position(s, k)].1)
    } else {
        None
    }
}

/// `s` with `v` under `k`: in the place of the entry that `k` had, or at
/// the end.
pub open spec fn put<K, V>(s: Seq<(K, V)>, k: K, v: V) -> Seq<(K, V)> {
    if has_key(s, k) {
        s.update(position(s, k), (k, v))
    } else {
        s.push((k, v))
    }
}

/// `s` without the entry under `k`.
pub open spec fn without<K, V>(s: Seq<(K, V)>, k: K) -> Seq<(K, V)> {
    if has_key(s, k) {
        s.remove(position(s, k))
    } else {
        s
    }
}

/// In a sequence without repeated keys the entry at `i` is the one that its
/// key is looked up to.
pub proof fn lemma_position<K, V>(s: Seq<(K, V)>, i: int)
    requires
        unique_keys(s),
        0 <= i < s.len(),
    ensures
        has_key(s, s[i].0),
        position(s, s[i].0) == i,
        lookup(s, s[i].0) == Some(s[i].1),
{
    let k = s[i].0;
    let p = position(s, k);
    assert(0 <= p < s.len() && s[p].0 == k);
    if p < i {
        assert(s[p].0 != s[i].0);
    } else if i < p {
        assert(s[i].0 != s[p].0);
    }
}

/// What [`put`] does to the keys and to every lookup.
pub proof fn lemma_put<K, V>(s: Seq<(K, V)>, k: K, v: V)
    requires
        unique_keys(s),
    ensures
        unique_keys(put(s, k, v)),
        lookup(put(s, k, v), k) == Some(v),
        forall|other: K| other != k ==> lookup(put(s, k, v), other) == lookup(s, other),
        forall|other: K| has_key(put(s, k, v), other) <==> other == k || has_key(s, other),
{
    let t = put(s, k, v);
    if has_key(s, k) {
        let p = position(s, k);
        assert(t[p] == (k, v));
        assert forall|i: int, j: int| 0 <= i < j < t.len() implies (#[trigger] t[i]).0 != (
        #[trigger] t[j]).0 by {
            assert(s[i].0 != s[j].0);
        }
        lemma_position(t, p);
        assert forall|other: K| other != k implies lookup(t, other) == lookup(s, other) by {
            if has_key(s, other) {
                let q = position(s, other);
                assert(t[q] == s[q]);
                lemma_position(s, q);
                lemma_position(t, q);
            } else if has_key(t, other) {
                let q = position(t, other);
                assert(s[q] == t[q]);
                assert(s[q].0 == other);
            }
        }
        assert forall|other: K| has_key(t, other) <==> other == k || has_key(s, other) by {
            if has_key(t, other) && other != k {
                let q = position(t, other);
                assert(s[q] == t[q]);
                assert(s[q].0 == other);
            }
            if has_key(s, other) {
                let q = position(s, other);
                assert(t[q].0 == other);
            }
        }
    } else {
        let p = s.len() as int;
        assert(t[p] == (k, v));
        assert forall|i: int, j: int| 0 <= i < j < t.len() implies (#[trigger] t[i]).0 != (
        #[trigger] t[j]).0 by {
            if j < p {
                assert(s[i].0 != s[j].0);
            } else {
                assert(s[i].0 == t[i].0);
            }
        }
        lemma_position(t, p);
        assert forall|other: K| other != k implies lookup(t, other) == lookup(s, other) by {
            if has_key(s, other) {
                let q = position(s, other);
                assert(t[q] == s[q]);
                lemma_position(s, q);
                lemma_position(t, q);
            } else if has_key(t, other) {
                let q = position(t, other);
                assert(s[q] == t[q]);
                assert(s[q].0 == other);
            }
        }
        assert forall|other: K| has_key(t, other) <==> other == k || has_key(s, other) by {
            if has_key(t, other) && other != k {
                let q = position(t, other);
                assert(s[q] == t[q]);
                assert(s[q].0 == other);
            }
            if has_key(s, other) {
                let q = position(s, other);
                assert(t[q].0 == other);
            }
        }
    }
}

/// What [`without`] does to the keys and to every lookup.
pub proof fn lemma_without<K, V>(s: Seq<(K, V)>, k: K)
    requires
        unique_keys(s),
    ensures
        unique_keys(without(s, k)),
        lookup(without(s, k), k).is_none(),
        forall|other: K| other != k ==> lookup(without(s, k), other) == lookup(s, other),
{
    let t = without(s, k);
    if has_key(s, k) {
        let p = position(s, k);
        assert forall|i: int, j: int| 0 <= i < j < t.len() implies (#[trigger] t[i]).0 != (
        #[trigger] t[j]).0 by {
            let si = if i < p {
                i
            } else {
                i + 1
            };
            let sj = if j < p {
                j
            } else {
                j + 1
            };
            assert(t[i] == s[si]);
            assert(t[j] == s[sj]);
            assert(s[si].0 != s[sj].0);
        }
        if has_key(t, k) {
            let q = position(t, k);
            let sq = if q < p {
                q
            } else {
                q + 1
            };
            assert(t[q] == s[sq]);
            if sq < p {
                assert(s[sq].0 != s[p].0);
            } else {
                assert(s[p].0 != s[sq].0);
            }
        }
        assert forall|other: K| other != k implies lookup(t, other) == lookup(s, other) by {
            if has_key(s, other) {
                let q = position(s, other);
                let tq = if q < p {
                    q
                } else {
                    q - 1
                };
                assert(t[tq] == s[q]);
                lemma_position(s, q);
                lemma_position(t, tq);
            } else if has_key(t, other) {
                let q = position(t, other);
                let sq = if q < p {
                    q
                } else {
                    q + 1
                };
                assert(t[q] == s[sq]);
                assert(s[sq].0 == other);
            }
        }
    }
}

/// A table from keys to values, in the order in which the keys came.
pub struct Table<K, V> {
    entries: Vec<(K, V)>,
}

impl<K, V> Table<K, V> {
    #[verifier::type_invariant]
    spec fn no_key_twice(self) -> bool {
        unique_keys(self.entries@)
    }

    /// The entries in order.
    pub closed spec fn view(&self) -> Seq<(K, V)> {
        self.entries@
    }
}

impl<K: Key, V> Table<K, V> {

    pub fn new() -> (r: Self)
        ensures
            r@ == Seq::<(K, V)>::empty(),
    {
        Table { entries: Vec::new() }
    }

    /// The number of entries. No table holds a key twice.
    pub fn len(&self) -> (r: usize)
        ensures
            r == self@.len(),
            unique_keys(self@),
    {
        proof {
            use_type_invariant(self);
        }
        self.entries.len()
    }

    /// The entry at place `i`.
    pub fn entry(&self, i: usize) -> (r: &(K, V))
        requires
            i < self@.len(),
        ensures
            *r == self@[i as int],
    {
        &self.entries[i]
    }

    /// The place of `k`, where the table has it.
    fn find(&self, k: &K) -> (r: Option<usize>)
        ensures
            unique_keys(self@),
            match r {
                Some(i) => i < self@.len() && self@[i as int].0 == *k && has_key(self@, *k)
                    && position(self@, *k) == i,
                None => !has_key(self@, *k),
            },
    {
        proof {
            use_type_invariant(self);
        }
        let mut i: usize = 0;
        while i < self.entries.len()
            invariant
                i <= self.entries.len(),
                unique_keys(self.entries@),
                forall|j: int| 0 <= j < i ==> (#[trigger] self.entries@[j]).0 != *k,
            decreases self.entries.len() - i,
        {
            if self.entries[i].0.same(k) {
                proof {
                    lemma_position(self.entries@, i as int);
                }
                return Some(i);
            }
            i += 1;
        }
        None
    }

    pub fn contains_key(&self, k: &K) -> (r: bool)
        ensures
            r == has_key(self@, *k),
            unique_keys(self@),
    {
        self.find(k).is_some()
    }

    /// The value under `k`.
    pub fn get(&self, k: &K) -> (r: Option<&V>)
        ensures
            match r {
                Some(v) => lookup(self@, *k) == Some(*v),
                None => lookup(self@, *k).is_none(),
            },
            unique_keys(self@),
    {
        match self.find(k) {
            Some(i) => Some(&self.entries[i].1),
            None => None,
        }
    }

    /// Puts `v` under `k`, in the place of the value that `k` had or at the
    /// end.
    pub fn insert(&mut self, k: K, v: V)
        ensures
            final(self)@ == put(old(self)@, k, v),
            unique_keys(old(self)@),
            unique_keys(final(self)@),
    {
        proof {
            use_type_invariant(&*self);
            lemma_put(self.entries@, k, v);
        }
        let found = self.find(&k);
        let mut entries: Vec<(K, V)> = Vec::new();
        core::mem::swap(&mut self.entries, &mut entries);
        match found {
            Some(i) => {
                entries.set(i, (k, v));
            },
            None => {
                entries.push((k, v));
            },
        }
        self.entries = entries;
    }

    /// Takes the entry under `k` out, where there is one.
    pub fn remove(&mut self, k: &K)
        ensures
            final(self)@ == without(old(self)@, *k),
            unique_keys(old(self)@),
            unique_keys(final(self)@),
    {
        proof {
            use_type_invariant(&*self);
            lemma_without(self.entries@, *k);
        }
        let found = self.find(k);
        let mut entries: Vec<(K, V)> = Vec::new();
        core::mem::swap(&mut self.entries, &mut entries);
        match found {
            Some(i) => {
                entries.remove(i);
            },
            None => {},
        }
        self.entries = entries;
    }
}

} // verus!
