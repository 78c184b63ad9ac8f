//! A map from strings to values that keeps its entries sorted by key, so
//! that walking it is deterministic: keys come out in string order.
use vstd::prelude::*;
use crate::text::{str_lt, str_less, str_eq, lemma_lex_irreflexive, lemma_lex_transitive, lemma_str_lt_total};

verus! {

/// Keys in strictly increasing order (hence distinct).
pub open spec fn sorted_keys(keys: Seq<Seq<char>>) -> bool {
    forall|i: int, j: int| 0 <= i < j < keys.len() ==> str_lt(#[trigger] keys[i], #[trigger] keys[j])
}

/// `k` occurs among `keys`.
pub open spec fn has_key(keys: Seq<Seq<char>>, k: Seq<char>) -> bool {
    exists|i: int| 0 <= i < keys.len() && #[trigger] keys[i] == k
}

/// The map whose entries are the pairs `(keys[i], vals[i])`.
pub open spec fn pairs_map<V>(keys: Seq<Seq<char>>, vals: Seq<V>) -> Map<Seq<char>, V> {
    Map::new(
        |k: Seq<char>| has_key(keys, k),
        |k: Seq<char>| vals[choose|i: int| 0 <= i < keys.len() && #[trigger] keys[i] == k],
    )
}

/// In a sorted key sequence a key occurs once.
pub proof fn lemma_key_unique(keys: Seq<Seq<char>>, a: int, b: int)
    requires
        sorted_keys(keys),
        0 <= a < keys.len(),
        0 <= b < keys.len(),
        keys[a] == keys[b],
    ensures
        a == b,
{
    if a < b {
        lemma_lex_irreflexive(keys[a], 0);
        assert(str_lt(keys[a], keys[b]));
    } else if b < a {
        lemma_lex_irreflexive(keys[a], 0);
        assert(str_lt(keys[b], keys[a]));
    }
}

/// The entry at `i` is what the map holds for `keys[i]`.
pub proof fn lemma_pairs_at<V>(keys: Seq<Seq<char>>, vals: Seq<V>, i: int)
    requires
        sorted_keys(keys),
        keys.len() == vals.len(),
        0 <= i < keys.len(),
    ensures
        pairs_map(keys, vals).contains_key(keys[i]),
        pairs_map(keys, vals)[keys[i]] == vals[i],
{
    assert(has_key(keys, keys[i]));
    let j = choose|j: int| 0 <= j < keys.len() && #[trigger] keys[j] == keys[i];
    lemma_key_unique(keys, i, j);
}

/// Two sorted pair sequences with the same entries as `m` make `m`.
pub proof fn lemma_pairs_ext<V>(keys: Seq<Seq<char>>, vals: Seq<V>, m: Map<Seq<char>, V>)
    requires
        sorted_keys(keys),
        keys.len() == vals.len(),
        forall|i: int| 0 <= i < keys.len() ==> #[trigger] m.contains_key(keys[i]) && m[keys[i]] == vals[i],
        forall|k: Seq<char>| #[trigger] m.contains_key(k) ==> has_key(keys, k),
    ensures
        pairs_map(keys, vals) == m,
{
    assert forall|k: Seq<char>| #[trigger] pairs_map(keys, vals).contains_key(k) == m.contains_key(k) by {
        if has_key(keys, k) {
            let i = choose|i: int| 0 <= i < keys.len() && #[trigger] keys[i] == k;
            assert(m.contains_key(keys[i]));
        }
    }
    assert forall|k: Seq<char>| #[trigger] pairs_map(keys, vals).contains_key(k) implies pairs_map(keys, vals)[k] == m[k] by {
        let i = choose|i: int| 0 <= i < keys.len() && #[trigger] keys[i] == k;
        lemma_pairs_at(keys, vals, i);
        assert(m.contains_key(keys[i]));
    }
    assert(pairs_map(keys, vals) =~= m);
}

/// A map from strings to values, walked in key order.
#[derive(Debug)]
pub struct StrMap<V> {
    entries: Vec<(String, V)>,
}

impl<V> StrMap<V> {
    /// The keys, in increasing order.
    pub closed spec fn keys(&self) -> Seq<Seq<char>> {
        Seq::new(self.entries@.len(), |i: int| self.entries@[i].0@)
    }

    /// The values, in the order of their keys.
    pub closed spec fn vals(&self) -> Seq<V> {
        Seq::new(self.entries@.len(), |i: int| self.entries@[i].1)
    }

    /// The map held.
    pub open spec fn map(&self) -> Map<Seq<char>, V> {
        pairs_map(self.keys(), self.vals())
    }

    /// Keys are sorted, hence distinct.
    pub open spec fn wf(&self) -> bool {
        &&& sorted_keys(self.keys())
        &&& self.keys().len() == self.vals().len()
    }

    /// What the map holds, entry by entry.
    pub proof fn lemma_entries(&self)
        requires
            self.wf(),
        ensures
            forall|i: int| #![trigger self.keys()[i]] 0 <= i < self.keys().len() ==> self.map().contains_key(self.keys()[i])
                && self.map()[self.keys()[i]] == self.vals()[i],
            forall|k: Seq<char>| #[trigger] self.map().contains_key(k) <==> has_key(self.keys(), k),
    {
        assert forall|i: int| #![trigger self.keys()[i]] 0 <= i < self.keys().len() implies self.map().contains_key(self.keys()[i])
            && self.map()[self.keys()[i]] == self.vals()[i] by {
            lemma_pairs_at(self.keys(), self.vals(), i);
        }
    }

    /// The keys are the map's domain, each once.
    pub proof fn lemma_dom(&self)
        requires
            self.wf(),
        ensures
            self.keys().no_duplicates(),
            self.keys().to_set() == self.map().dom(),
            self.map().dom().finite(),
            self.map().dom().len() == self.keys().len(),
    {
        self.lemma_entries();
        let ks = self.keys();
        assert forall|i: int, j: int| 0 <= i < ks.len() && 0 <= j < ks.len() && i != j implies ks[i] != ks[j] by {
            if ks[i] == ks[j] {
                lemma_key_unique(ks, i, j);
            }
        }
        assert forall|k: Seq<char>| #[trigger] ks.to_set().contains(k) == self.map().dom().contains(k) by {
            if ks.contains(k) {
                let i = choose|i: int| 0 <= i < ks.len() && ks[i] == k;
                assert(has_key(ks, k));
            }
            if has_key(ks, k) {
                let i = choose|i: int| 0 <= i < ks.len() && #[trigger] ks[i] == k;
                assert(ks.contains(k));
            }
        }
        assert(ks.to_set() =~= self.map().dom());
        ks.unique_seq_to_set();
    }

    /// An empty map.
    pub fn new() -> (r: Self)
        ensures
            r.wf(),
            r.keys().len() == 0,
            r.map() == Map::<Seq<char>, V>::empty(),
    {
        let r = StrMap { entries: Vec::new() };
        assert(r.map() =~= Map::<Seq<char>, V>::empty());
        r
    }

    /// The number of entries.
    pub fn len(&self) -> (r: usize)
        ensures
            r == self.keys().len(),
    {
        self.entries.len()
    }

    /// `true` iff there is no entry.
    pub fn is_empty(&self) -> (r: bool)
        ensures
            r == (self.keys().len() == 0),
    {
        self.entries.len() == 0
    }

    /// Where `k` is, or where it would go.
    fn find(&self, k: &str) -> (r: (usize, bool))
        requires
            self.wf(),
        ensures
            r.0 <= self.keys().len(),
            r.1 ==> r.0 < self.keys().len() && self.keys()[r.0 as int] == k@,
            !r.1 ==> forall|i: int| 0 <= i < r.0 ==> str_lt(#[trigger] self.keys()[i], k@),
            !r.1 ==> forall|i: int| r.0 <= i < self.keys().len() ==> str_lt(k@, #[trigger] self.keys()[i]),
    {
        let mut i: usize = 0;
        while i < self.entries.len() && str_less(self.entries[i].0.as_str(), k)
            invariant
                self.wf(),
                i <= self.keys().len(),
                forall|j: int| 0 <= j < i ==> str_lt(#[trigger] self.keys()[j], k@),
            decreases self.keys().len() - i,
        {
            assert(self.keys()[i as int] == self.entries@[i as int].0@);
            i = i + 1;
        }
        if i < self.entries.len() {
            assert(self.keys()[i as int] == self.entries@[i as int].0@);
            if str_eq(self.entries[i].0.as_str(), k) {
                return (i, true);
            }
            proof {
                lemma_str_lt_total(k@, self.keys()[i as int]);
                assert forall|j: int| i <= j < self.keys().len() implies str_lt(k@, #[trigger] self.keys()[j]) by {
                    if j > i {
                        lemma_lex_transitive(k@, self.keys()[i as int], self.keys()[j], 0);
                    }
                }
            }
        }
        (i, false)
    }

    /// `true` iff `k` has an entry.
    pub fn contains_key(&self, k: &str) -> (r: bool)
        requires
            self.wf(),
        ensures
            r == self.map().contains_key(k@),
    {
        let (i, found) = self.find(k);
        proof {
            self.lemma_entries();
            if !found {
                if has_key(self.keys(), k@) {
                    let j = choose|j: int| 0 <= j < self.keys().len() && #[trigger] self.keys()[j] == k@;
                    lemma_lex_irreflexive(k@, 0);
                    if j < i {
                        assert(str_lt(self.keys()[j], k@));
                    } else {
                        assert(str_lt(k@, self.keys()[j]));
                    }
                }
            }
        }
        found
    }

    /// The value of `k`, if any.
    pub fn get(&self, k: &str) -> (r: Option<&V>)
        requires
            self.wf(),
        ensures
            r == (if self.map().contains_key(k@) { Some(&self.map()[k@]) } else { None }),
    {
        let (i, found) = self.find(k);
        proof {
            self.lemma_entries();
            if !found {
                if has_key(self.keys(), k@) {
                    let j = choose|j: int| 0 <= j < self.keys().len() && #[trigger] self.keys()[j] == k@;
                    lemma_lex_irreflexive(k@, 0);
                    if j < i {
                        assert(str_lt(self.keys()[j], k@));
                    } else {
                        assert(str_lt(k@, self.keys()[j]));
                    }
                }
            }
        }
        if found {
            assert(self.vals()[i as int] == self.entries@[i as int].1);
            Some(&self.entries[i].1)
        } else {
            None
        }
    }

    /// Sets the value of `k`, and gives back the value it replaced.
    pub fn insert(&mut self, k: String, v: V) -> (r: Option<V>)
        requires
            old(self).wf(),
        ensures
            final(self).wf(),
            final(self).map() == old(self).map().insert(k@, v),
            r == (if old(self).map().contains_key(k@) { Some(old(self).map()[k@]) } else { None }),
            old(self).map().contains_key(k@) ==> final(self).keys() == old(self).keys(),
            !old(self).map().contains_key(k@) ==> final(self).keys().len() == old(self).keys().len() + 1,
    {
        let ghost ok = self.keys();
        let ghost ov = self.vals();
        let ghost kv = k@;
        proof {
            self.lemma_entries();
        }
        let (i, found) = self.find(k.as_str());
        if found {
            let old_entry = self.entries.remove(i);
            self.entries.insert(i, (k, v));
            proof {
                assert(self.keys() =~= ok);
                assert(self.vals() =~= ov.update(i as int, v));
                let m = pairs_map(ok, ov).insert(kv, v);
                assert forall|j: int| 0 <= j < self.keys().len() implies #[trigger] m.contains_key(self.keys()[j])
                    && m[self.keys()[j]] == self.vals()[j] by {
                    lemma_pairs_at(ok, ov, j);
                    if j != i {
                        if ok[j] == kv {
                            lemma_key_unique(ok, i as int, j);
                        }
                    }
                }
                assert forall|x: Seq<char>| #[trigger] m.contains_key(x) implies has_key(self.keys(), x) by {
                    if x == kv {
                        assert(self.keys()[i as int] == x);
                    } else {
                        let j = choose|j: int| 0 <= j < ok.len() && #[trigger] ok[j] == x;
                        assert(self.keys()[j] == x);
                    }
                }
                lemma_pairs_ext(self.keys(), self.vals(), m);
                lemma_pairs_at(ok, ov, i as int);
            }
            Some(old_entry.1)
        } else {
            self.entries.insert(i, (k, v));
            proof {
                assert(self.keys() =~= ok.insert(i as int, kv));
                assert(self.vals() =~= ov.insert(i as int, v));
                let nk = self.keys();
                assert forall|a: int, b: int| 0 <= a < b < nk.len() implies str_lt(#[trigger] nk[a], #[trigger] nk[b]) by {
                    if b < i {
                    } else if a > i {
                        assert(nk[a] == ok[a - 1] && nk[b] == ok[b - 1]);
                    } else if a == i {
                        assert(nk[b] == ok[b - 1]);
                    } else if b == i {
                    } else {
                        assert(nk[b] == ok[b - 1]);
                    }
                }
                let m = pairs_map(ok, ov).insert(kv, v);
                assert(!has_key(ok, kv)) by {
                    if has_key(ok, kv) {
                        let j = choose|j: int| 0 <= j < ok.len() && #[trigger] ok[j] == kv;
                        lemma_lex_irreflexive(kv, 0);
                        if j < i {
                            assert(str_lt(ok[j], kv));
                        } else {
                            assert(str_lt(kv, ok[j]));
                        }
                    }
                }
                assert forall|j: int| 0 <= j < nk.len() implies #[trigger] m.contains_key(nk[j])
                    && m[nk[j]] == self.vals()[j] by {
                    if j < i {
                        lemma_pairs_at(ok, ov, j);
                    } else if j > i {
                        lemma_pairs_at(ok, ov, j - 1);
                        assert(nk[j] == ok[j - 1]);
                    }
                }
                assert forall|x: Seq<char>| #[trigger] m.contains_key(x) implies has_key(nk, x) by {
                    if x == kv {
                        assert(nk[i as int] == x);
                    } else {
                        let j = choose|j: int| 0 <= j < ok.len() && #[trigger] ok[j] == x;
                        if j < i {
                            assert(nk[j] == x);
                        } else {
                            assert(nk[j + 1] == x);
                        }
                    }
                }
                lemma_pairs_ext(nk, self.vals(), m);
            }
            None
        }
    }

    /// Removes the entry of `k`, and gives back its value.
    pub fn remove(&mut self, k: &str) -> (r: Option<V>)
        requires
            old(self).wf(),
        ensures
            final(self).wf(),
            final(self).map() == old(self).map().remove(k@),
            r == (if old(self).map().contains_key(k@) { Some(old(self).map()[k@]) } else { None }),
            final(self).keys().len() == old(self).keys().len() - (if old(self).map().contains_key(k@) { 1int } else { 0int }),
            !old(self).map().contains_key(k@) ==> final(self).keys() == old(self).keys() && final(self).vals() == old(self).vals(),
    {
        let ghost ok = self.keys();
        let ghost ov = self.vals();
        proof {
            self.lemma_entries();
        }
        let (i, found) = self.find(k);
        if found {
            let e = self.entries.remove(i);
            proof {
                let nk = self.keys();
                assert(nk =~= ok.remove(i as int));
                assert(self.vals() =~= ov.remove(i as int));
                assert forall|a: int, b: int| 0 <= a < b < nk.len() implies str_lt(#[trigger] nk[a], #[trigger] nk[b]) by {
                    if a >= i {
                        assert(nk[a] == ok[a + 1] && nk[b] == ok[b + 1]);
                    } else if b >= i {
                        assert(nk[b] == ok[b + 1]);
                    }
                }
                let m = pairs_map(ok, ov).remove(k@);
                assert forall|j: int| 0 <= j < nk.len() implies #[trigger] m.contains_key(nk[j])
                    && m[nk[j]] == self.vals()[j] by {
                    if j < i {
                        lemma_pairs_at(ok, ov, j);
                        if ok[j] == k@ {
                            lemma_key_unique(ok, i as int, j);
                        }
                    } else {
                        lemma_pairs_at(ok, ov, j + 1);
                        assert(nk[j] == ok[j + 1]);
                        if ok[j + 1] == k@ {
                            lemma_key_unique(ok, i as int, j + 1);
                        }
                    }
                }
                assert forall|x: Seq<char>| #[trigger] m.contains_key(x) implies has_key(nk, x) by {
                    let j = choose|j: int| 0 <= j < ok.len() && #[trigger] ok[j] == x;
                    if j < i {
                        assert(nk[j] == x);
                    } else {
                        assert(j != i);
                        assert(nk[j - 1] == x);
                    }
                }
                lemma_pairs_ext(nk, self.vals(), m);
                lemma_pairs_at(ok, ov, i as int);
            }
            Some(e.1)
        } else {
            proof {
                if has_key(ok, k@) {
                    let j = choose|j: int| 0 <= j < ok.len() && #[trigger] ok[j] == k@;
                    lemma_lex_irreflexive(k@, 0);
                    if j < i {
                        assert(str_lt(ok[j], k@));
                    } else {
                        assert(str_lt(k@, ok[j]));
                    }
                }
                assert(self.map() =~= self.map().remove(k@));
            }
            None
        }
    }

    /// Removes every entry.
    pub fn clear(&mut self)
        ensures
            final(self).wf(),
            final(self).keys().len() == 0,
            final(self).map() == Map::<Seq<char>, V>::empty(),
    {
        self.entries.clear();
        assert(self.map() =~= Map::<Seq<char>, V>::empty());
    }

    /// The values, in key order.
    pub fn values(&self) -> (r: Vec<&V>)
        ensures
            r@.len() == self.vals().len(),
            forall|i: int| 0 <= i < r@.len() ==> *r@[i] == self.vals()[i],
    {
        let mut r: Vec<&V> = Vec::new();
        let mut i: usize = 0;
        while i < self.entries.len()
            invariant
                i <= self.entries@.len(),
                r@.len() == i,
                forall|j: int| 0 <= j < i ==> *r@[j] == self.vals()[j],
            decreases self.entries@.len() - i,
        {
            r.push(&self.entries[i].1);
            i = i + 1;
        }
        r
    }

    /// The entries, in key order.
    pub fn iter_pairs(&self) -> (r: Vec<(&String, &V)>)
        ensures
            r@.len() == self.keys().len(),
            forall|i: int| 0 <= i < r@.len() ==> (#[trigger] r@[i]).0@ == self.keys()[i] && *r@[i].1 == self.vals()[i],
    {
        let mut r: Vec<(&String, &V)> = Vec::new();
        let mut i: usize = 0;
        while i < self.entries.len()
            invariant
                i <= self.entries@.len(),
                r@.len() == i,
                forall|j: int| 0 <= j < i ==> (#[trigger] r@[j]).0@ == self.keys()[j] && *r@[j].1 == self.vals()[j],
            decreases self.entries@.len() - i,
        {
            r.push((&self.entries[i].0, &self.entries[i].1));
            i = i + 1;
        }
        r
    }
}

impl<V: Clone> Clone for StrMap<V> {
    /// A copy with the same keys and a clone of every value.
    fn clone(&self) -> (r: Self)
        ensures
            r.keys() == self.keys(),
            r.vals().len() == self.vals().len(),
            forall|i: int| 0 <= i < self.vals().len() ==> cloned::<V>(self.vals()[i], #[trigger] r.vals()[i]),
    {
        let mut entries: Vec<(String, V)> = Vec::new();
        let mut i: usize = 0;
        while i < self.entries.len()
            invariant
                i <= self.entries@.len(),
                entries@.len() == i,
                forall|j: int| 0 <= j < i ==> (#[trigger] entries@[j]).0@ == self.entries@[j].0@
                    && cloned::<V>(self.entries@[j].1, entries@[j].1),
            decreases self.entries@.len() - i,
        {
            let k = self.entries[i].0.clone();
            let v = self.entries[i].1.clone();
            entries.push((k, v));
            i = i + 1;
        }
        let r = StrMap { entries };
        assert(r.keys() =~= self.keys());
        r
    }
}

/// A well-formed map has one entry per key.
pub proof fn lemma_dom_len<V>(m: &StrMap<V>)
    requires
        m.wf(),
    ensures
        m.map().dom().finite(),
        m.map().dom().len() == m.keys().len(),
{
    let k = m.keys();
    assert(m.map().dom() =~= k.to_set()) by {
        assert forall|x: Seq<char>| m.map().dom().contains(x) == k.to_set().contains(x) by {
            if k.contains(x) {
                let i = choose|i: int| 0 <= i < k.len() && k[i] == x;
                assert(has_key(k, x));
            }
            if has_key(k, x) {
                let i = choose|i: int| 0 <= i < k.len() && #[trigger] k[i] == x;
                assert(k.contains(x));
            }
        }
    }
    assert(k.no_duplicates()) by {
        assert forall|i: int, j: int| 0 <= i < k.len() && 0 <= j < k.len() && i != j implies k[i] != k[j] by {
            if k[i] == k[j] {
                lemma_key_unique(k, i, j);
            }
        }
    }
    k.unique_seq_to_set();
}

} // verus!
