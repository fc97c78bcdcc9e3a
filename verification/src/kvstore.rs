//! A small verified key-value store keyed by `u64`, used to model the
//! persistent storage maps of the core (ledgers, registries, per-era records).
//!
//! The store is an association vector with unique keys. Its mathematical model
//! is a `Map<u64, V>`; insertion order is also exposed as a sequence, which the
//! storage migrations use to walk every entry.

use vstd::prelude::*;

verus! {

/// True when no key occurs twice in the entry sequence.
pub open spec fn unique_keys<V>(s: Seq<(u64, V)>) -> bool {
    forall|i: int, j: int| 0 <= i < j < s.len() ==> s[i].0 != s[j].0
}

/// True when some entry of `s` carries the key `k`.
pub open spec fn has_key<V>(s: Seq<(u64, V)>, k: u64) -> bool {
    exists|i: int| 0 <= i < s.len() && s[i].0 == k
}

/// The map an entry sequence denotes; later entries win, though the store
/// keeps keys unique so order never matters.
pub open spec fn map_of<V>(s: Seq<(u64, V)>) -> Map<u64, V>
    decreases s.len(),
{
    if s.len() == 0 {
        Map::empty()
    } else {
        map_of(s.drop_last()).insert(s.last().0, s.last().1)
    }
}

pub proof fn lemma_map_of_contains<V>(s: Seq<(u64, V)>, k: u64)
    ensures
        map_of(s).contains_key(k) <==> has_key(s, k),
    decreases s.len(),
{
    if s.len() > 0 {
        lemma_map_of_contains(s.drop_last(), k);
        if s.last().0 == k {
            assert(s[s.len() - 1].0 == k);
        } else {
            if has_key(s.drop_last(), k) {
                let i = choose|i: int| 0 <= i < s.drop_last().len() && s.drop_last()[i].0 == k;
                assert(s[i].0 == k);
            }
            if has_key(s, k) {
                let i = choose|i: int| 0 <= i < s.len() && s[i].0 == k;
                assert(i < s.len() - 1);
                assert(s.drop_last()[i].0 == k);
            }
        }
    }
}

pub proof fn lemma_map_of_index<V>(s: Seq<(u64, V)>, i: int)
    requires
        unique_keys(s),
        0 <= i < s.len(),
    ensures
        map_of(s).contains_key(s[i].0),
        map_of(s)[s[i].0] == s[i].1,
    decreases s.len(),
{
    if i == s.len() - 1 {
    } else {
        assert(s.drop_last()[i] == s[i]);
        lemma_map_of_index(s.drop_last(), i);
        assert(s.last().0 != s[i].0);
    }
}

pub proof fn lemma_map_of_len<V>(s: Seq<(u64, V)>)
    requires
        unique_keys(s),
    ensures
        map_of(s).dom().finite(),
        map_of(s).dom().len() == s.len(),
    decreases s.len(),
{
    if s.len() > 0 {
        lemma_map_of_len(s.drop_last());
        lemma_map_of_contains(s.drop_last(), s.last().0);
        assert(!has_key(s.drop_last(), s.last().0)) by {
            if has_key(s.drop_last(), s.last().0) {
                let i = choose|i: int|
                    0 <= i < s.drop_last().len() && s.drop_last()[i].0 == s.last().0;
                assert(s[i].0 == s[s.len() - 1].0);
            }
        }
    }
}

proof fn lemma_map_of_update<V>(s: Seq<(u64, V)>, i: int, v: V)
    requires
        unique_keys(s),
        0 <= i < s.len(),
    ensures
        map_of(s.update(i, (s[i].0, v))) == map_of(s).insert(s[i].0, v),
        unique_keys(s.update(i, (s[i].0, v))),
    decreases s.len(),
{
    let k = s[i].0;
    let t = s.update(i, (k, v));
    assert(unique_keys(t)) by {
        assert(forall|a: int, b: int| 0 <= a < b < t.len() ==> t[a].0 == s[a].0 && t[b].0 == s[b].0);
    }
    if i == s.len() - 1 {
        assert(t.drop_last() =~= s.drop_last());
        assert(t.last() == (k, v));
        assert(map_of(t) == map_of(s.drop_last()).insert(k, v));
        assert(map_of(s).insert(k, v) =~= map_of(s.drop_last()).insert(k, v));
    } else {
        assert(t.drop_last() =~= s.drop_last().update(i, (k, v)));
        assert(s.drop_last()[i] == s[i]);
        lemma_map_of_update(s.drop_last(), i, v);
        assert(t.last() == s.last());
        assert(map_of(t) == map_of(s.drop_last()).insert(k, v).insert(s.last().0, s.last().1));
        assert(s.last().0 != k);
        assert(map_of(s.drop_last()).insert(k, v).insert(s.last().0, s.last().1) =~= map_of(
            s.drop_last(),
        ).insert(s.last().0, s.last().1).insert(k, v));
    }
}

proof fn lemma_map_of_remove<V>(s: Seq<(u64, V)>, i: int)
    requires
        unique_keys(s),
        0 <= i < s.len(),
    ensures
        map_of(s.remove(i)) == map_of(s).remove(s[i].0),
        unique_keys(s.remove(i)),
    decreases s.len(),
{
    let k = s[i].0;
    let t = s.remove(i);
    assert(unique_keys(t)) by {
        assert(forall|a: int, b: int| 0 <= a < b < t.len() ==> #[trigger] t[a].0 != #[trigger] t[b].0) by {
            assert(forall|a: int| 0 <= a < t.len() ==> #[trigger] t[a] == if a < i {
                s[a]
            } else {
                s[a + 1]
            });
        }
    }
    if i == s.len() - 1 {
        assert(t =~= s.drop_last());
        lemma_map_of_contains(s.drop_last(), k);
        assert(!has_key(s.drop_last(), k)) by {
            if has_key(s.drop_last(), k) {
                let j = choose|j: int| 0 <= j < s.drop_last().len() && s.drop_last()[j].0 == k;
                assert(s[j].0 == s[i].0);
            }
        }
        assert(map_of(s).remove(k) =~= map_of(s.drop_last()));
    } else {
        assert(t.drop_last() =~= s.drop_last().remove(i));
        assert(s.drop_last()[i] == s[i]);
        lemma_map_of_remove(s.drop_last(), i);
        assert(t.last() == s.last());
        assert(map_of(t) == map_of(s.drop_last()).remove(k).insert(s.last().0, s.last().1));
        assert(s.last().0 != k);
        assert(map_of(s.drop_last()).remove(k).insert(s.last().0, s.last().1) =~= map_of(
            s.drop_last(),
        ).insert(s.last().0, s.last().1).remove(k));
    }
}

/// A storage map from `u64` keys to values of type `V`, with a `Map` view.
pub struct KvStore<V> {
    entries: Vec<(u64, V)>,
}

impl<V> View for KvStore<V> {
    type V = Map<u64, V>;

    open spec fn view(&self) -> Map<u64, V> {
        map_of(self.entries_seq())
    }
}

impl<V> KvStore<V> {
    /// The entries in insertion order.
    pub closed spec fn entries_seq(self) -> Seq<(u64, V)> {
        self.entries@
    }

    /// Well-formed: no key stored twice.
    pub open spec fn wf(self) -> bool {
        unique_keys(self.entries_seq())
    }

    /// An empty store.
    pub fn new() -> (r: Self)
        ensures
            r.wf(),
            r@ == Map::<u64, V>::empty(),
            r.entries_seq() == Seq::<(u64, V)>::empty(),
    {
        let r = KvStore { entries: Vec::new() };
        proof {
            assert(r.entries@ =~= Seq::<(u64, V)>::empty());
        }
        r
    }

    /// Index of the entry carrying `k`, if any.
    fn find(&self, k: u64) -> (r: Option<usize>)
        ensures
            match r {
                Some(i) => i < self.entries_seq().len() && self.entries_seq()[i as int].0 == k,
                None => !has_key(self.entries_seq(), k),
            },
    {
        let n = self.entries.len();
        let mut i: usize = 0;
        while i < n
            invariant
                i <= n,
                n == self.entries_seq().len(),
                forall|j: int| 0 <= j < i ==> self.entries_seq()[j].0 != k,
            decreases n - i,
        {
            if self.entries[i].0 == k {
                return Some(i);
            }
            i = i + 1;
        }
        None
    }

    /// Whether `k` is present.
    pub fn contains_key(&self, k: u64) -> (r: bool)
        ensures
            r == self@.contains_key(k),
    {
        proof {
            lemma_map_of_contains(self.entries_seq(), k);
        }
        self.find(k).is_some()
    }

    /// The value stored under `k`, if any.
    pub fn get(&self, k: u64) -> (r: Option<&V>)
        requires
            self.wf(),
        ensures
            r is Some <==> self@.contains_key(k),
            r is Some ==> *r->Some_0 == self@[k],
    {
        proof {
            lemma_map_of_contains(self.entries_seq(), k);
        }
        match self.find(k) {
            Some(i) => {
                proof {
                    lemma_map_of_index(self.entries_seq(), i as int);
                }
                Some(&self.entries[i].1)
            },
            None => None,
        }
    }

    /// Store `v` under `k`, replacing any previous value.
    pub fn insert(&mut self, k: u64, v: V)
        requires
            old(self).wf(),
        ensures
            final(self).wf(),
            final(self)@ == old(self)@.insert(k, v),
            // An absent key is appended; a present key is updated in place.
            !old(self)@.contains_key(k) ==> final(self).entries_seq() == old(
                self,
            ).entries_seq().push((k, v)),
            old(self)@.contains_key(k) ==> exists|i: int|
                0 <= i < old(self).entries_seq().len() && old(self).entries_seq()[i].0 == k
                    && final(self).entries_seq() == old(self).entries_seq().update(i, (k, v)),
            forall|i: int|
                0 <= i < old(self).entries_seq().len() ==> final(self).entries_seq()[i].0 == old(
                    self,
                ).entries_seq()[i].0,
    {
        proof {
            lemma_map_of_contains(self.entries_seq(), k);
        }
        match self.find(k) {
            Some(i) => {
                proof {
                    lemma_map_of_update(self.entries_seq(), i as int, v);
                }
                self.entries[i] = (k, v);
            },
            None => {
                self.entries.push((k, v));
                proof {
                    assert(self.entries@.drop_last() =~= old(self).entries@);
                    assert(unique_keys(self.entries@)) by {
                        assert(forall|a: int|
                            0 <= a < old(self).entries@.len() ==> #[trigger] self.entries@[a]
                                == old(self).entries@[a]);
                    }
                }
            },
        }
    }

    /// Remove and return the value stored under `k`.
    pub fn remove(&mut self, k: u64) -> (r: Option<V>)
        requires
            old(self).wf(),
        ensures
            final(self).wf(),
            final(self)@ == old(self)@.remove(k),
            r is Some <==> old(self)@.contains_key(k),
            r is Some ==> r->Some_0 == old(self)@[k],
    {
        proof {
            lemma_map_of_contains(self.entries_seq(), k);
        }
        match self.find(k) {
            Some(i) => {
                proof {
                    lemma_map_of_index(self.entries_seq(), i as int);
                    lemma_map_of_remove(self.entries_seq(), i as int);
                }
                let (_, v) = self.entries.remove(i);
                Some(v)
            },
            None => {
                proof {
                    assert(old(self)@.remove(k) =~= old(self)@);
                }
                None
            },
        }
    }

    /// Number of stored entries.
    pub fn len(&self) -> (r: usize)
        requires
            self.wf(),
        ensures
            r == self@.dom().len(),
            r == self.entries_seq().len(),
    {
        proof {
            lemma_map_of_len(self.entries_seq());
        }
        self.entries.len()
    }

    /// Number of stored entries (also the length of `entries_seq`).
    pub fn entry_count(&self) -> (r: usize)
        ensures
            r == self.entries_seq().len(),
    {
        self.entries.len()
    }

    /// The key of the entry at position `i`.
    pub fn key_at(&self, i: usize) -> (r: u64)
        requires
            self.wf(),
            i < self.entries_seq().len(),
        ensures
            r == self.entries_seq()[i as int].0,
            self@.contains_key(r),
            self@[r] == self.entries_seq()[i as int].1,
    {
        proof {
            lemma_map_of_index(self.entries_seq(), i as int);
        }
        self.entries[i].0
    }

    /// The value of the entry at position `i`.
    pub fn value_at(&self, i: usize) -> (r: &V)
        requires
            self.wf(),
            i < self.entries_seq().len(),
        ensures
            *r == self.entries_seq()[i as int].1,
            *r == self@[self.entries_seq()[i as int].0],
    {
        proof {
            lemma_map_of_index(self.entries_seq(), i as int);
        }
        &self.entries[i].1
    }

    /// Replace the value of the entry at position `i`, keeping its key.
    pub fn set_value_at(&mut self, i: usize, v: V)
        requires
            old(self).wf(),
            i < old(self).entries_seq().len(),
        ensures
            final(self).wf(),
            final(self).entries_seq() == old(self).entries_seq().update(
                i as int,
                (old(self).entries_seq()[i as int].0, v),
            ),
            final(self)@ == old(self)@.insert(old(self).entries_seq()[i as int].0, v),
    {
        proof {
            lemma_map_of_update(self.entries_seq(), i as int, v);
        }
        let k = self.entries[i].0;
        self.entries[i] = (k, v);
    }

    /// All keys, in entry order.
    pub fn keys(&self) -> (r: Vec<u64>)
        requires
            self.wf(),
        ensures
            r@.len() == self.entries_seq().len(),
            forall|i: int| 0 <= i < r@.len() ==> r@[i] == self.entries_seq()[i].0,
    {
        let n = self.entries.len();
        let mut r: Vec<u64> = Vec::new();
        let mut i: usize = 0;
        while i < n
            invariant
                i <= n,
                n == self.entries_seq().len(),
                r@.len() == i,
                forall|j: int| 0 <= j < i ==> r@[j] == self.entries_seq()[j].0,
            decreases n - i,
        {
            r.push(self.entries[i].0);
            i = i + 1;
        }
        r
    }
}

} // verus!
