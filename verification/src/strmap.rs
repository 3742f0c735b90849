//! A map keyed by strings that remembers the order in which keys were first set.

use vstd::prelude::*;
use crate::text::{str_eq, starts_with, chars_of, starts_with_exec};

verus! {

/// The keys of a sequence of pairs.
pub open spec fn keys_of<V>(ps: Seq<(Seq<char>, V)>) -> Seq<Seq<char>> {
    ps.map_values(|p: (Seq<char>, V)| p.0)
}

/// The value paired with `k` (the last such pair), if any.
pub open spec fn lookup<V>(ps: Seq<(Seq<char>, V)>, k: Seq<char>) -> Option<V>
    decreases ps.len(),
{
    if ps.len() == 0 {
        None
    } else if ps.last().0 == k {
        Some(ps.last().1)
    } else {
        lookup(ps.drop_last(), k)
    }
}

/// The map that a sequence of pairs stands for.
pub open spec fn map_of<V>(ps: Seq<(Seq<char>, V)>) -> Map<Seq<char>, V> {
    Map::new(|k: Seq<char>| lookup(ps, k) is Some, |k: Seq<char>| lookup(ps, k)->Some_0)
}

/// With distinct keys, each pair is what `lookup` finds for its key.
pub proof fn lemma_lookup_index<V>(ps: Seq<(Seq<char>, V)>, i: int)
    requires
        keys_of(ps).no_duplicates(),
        0 <= i < ps.len(),
    ensures
        lookup(ps, ps[i].0) == Some(ps[i].1),
    decreases ps.len(),
{
    if i < ps.len() - 1 {
        assert(keys_of(ps)[i] != keys_of(ps)[ps.len() - 1]);
        assert(keys_of(ps.drop_last()) =~= keys_of(ps).drop_last());
        lemma_lookup_index(ps.drop_last(), i);
    }
}

/// `lookup` finds nothing for a key that no pair has, and finds some pair's value otherwise.
pub proof fn lemma_lookup_absent<V>(ps: Seq<(Seq<char>, V)>, k: Seq<char>)
    ensures
        (forall|i: int| 0 <= i < ps.len() ==> ps[i].0 != k) ==> lookup(ps, k) is None,
        lookup(ps, k) is None ==> forall|i: int| 0 <= i < ps.len() ==> ps[i].0 != k,
    decreases ps.len(),
{
    if ps.len() > 0 {
        lemma_lookup_absent(ps.drop_last(), k);
        if lookup(ps, k) is None {
            assert forall|i: int| 0 <= i < ps.len() implies ps[i].0 != k by {
                if i < ps.len() - 1 {
                    assert(ps.drop_last()[i] == ps[i]);
                }
            }
        }
        if forall|i: int| 0 <= i < ps.len() ==> ps[i].0 != k {
            assert forall|i: int| 0 <= i < ps.drop_last().len() implies ps.drop_last()[i].0 != k by {
                assert(ps.drop_last()[i] == ps[i]);
            }
        }
    }
}

/// Two pair sequences with distinct keys, the same keys and the same value at
/// each key stand for the same map.
pub proof fn lemma_map_of_agree<V>(ps: Seq<(Seq<char>, V)>, k: Seq<char>)
    requires
        keys_of(ps).no_duplicates(),
    ensures
        map_of(ps).contains_key(k) <==> keys_of(ps).contains(k),
        keys_of(ps).contains(k) ==> map_of(ps)[k] == ps[keys_of(ps).index_of(k)].1,
{
    lemma_lookup_absent(ps, k);
    if !keys_of(ps).contains(k) {
        assert forall|i: int| 0 <= i < ps.len() implies ps[i].0 != k by {
            assert(keys_of(ps)[i] == ps[i].0);
        }
    }
    if keys_of(ps).contains(k) {
        let i = keys_of(ps).index_of(k);
        lemma_lookup_index(ps, i);
    }
}

/// With distinct keys, the map's keys are the pairs' keys, as many as there are pairs.
pub proof fn lemma_key_count<V>(ps: Seq<(Seq<char>, V)>)
    requires
        keys_of(ps).no_duplicates(),
    ensures
        map_of(ps).dom() == keys_of(ps).to_set(),
        map_of(ps).dom().finite(),
        map_of(ps).dom().len() == ps.len(),
{
    assert forall|k: Seq<char>| map_of(ps).dom().contains(k) <==> keys_of(ps).to_set().contains(k) by {
        lemma_map_of_agree(ps, k);
    }
    assert(map_of(ps).dom() =~= keys_of(ps).to_set());
    keys_of(ps).unique_seq_to_set();
}

/// The position of the pair whose key is `k`, if any.
fn find_key<V>(es: &Vec<(String, V)>, k: &str) -> (r: Option<usize>)
    ensures
        match r {
            Some(i) => i < es@.len() && es@[i as int].0@ == k@,
            None => forall|j: int| 0 <= j < es@.len() ==> es@[j].0@ != k@,
        },
{
    let mut i: usize = 0;
    while i < es.len()
        invariant
            i <= es@.len(),
            forall|j: int| 0 <= j < i ==> es@[j].0@ != k@,
        decreases es@.len() - i,
    {
        if str_eq(es[i].0.as_str(), k) {
            return Some(i);
        }
        i = i + 1;
    }
    None
}

/// A map from strings to values that keeps its keys in the order they were first set.
#[derive(Debug)]
pub struct StringMap<V> {
    entries: Vec<(String, V)>,
}

impl<V> StringMap<V> {
    /// The pairs of the map, in order, keys by their text.
    pub closed spec fn pairs(self) -> Seq<(Seq<char>, V)> {
        self.entries@.map_values(|e: (String, V)| (e.0@, e.1))
    }

    /// The keys never repeat.
    #[verifier::type_invariant]
    closed spec fn wf(self) -> bool {
        keys_of(self.pairs()).no_duplicates()
    }

    /// The map as a mathematical map.
    pub open spec fn map(self) -> Map<Seq<char>, V> {
        map_of(self.pairs())
    }

    /// Creates an empty map.
    pub fn new() -> (m: Self)
        ensures
            m.pairs() == Seq::<(Seq<char>, V)>::empty(),
            m.map() == Map::<Seq<char>, V>::empty(),
    {
        let m = StringMap { entries: Vec::new() };
        assert(m.pairs() =~= Seq::<(Seq<char>, V)>::empty());
        assert(m.map() =~= Map::<Seq<char>, V>::empty());
        m
    }

    /// The number of keys.
    pub fn len(&self) -> (n: usize)
        ensures
            n == self.pairs().len(),
    {
        self.entries.len()
    }

    /// The number of keys, as the size of the map's domain.
    pub fn key_count(&self) -> (n: usize)
        ensures
            n == self.pairs().len(),
            self.map().dom().finite(),
            n == self.map().dom().len(),
    {
        proof {
            use_type_invariant(self);
            lemma_key_count(self.pairs());
        }
        self.entries.len()
    }

    /// Whether the map has no keys.
    pub fn is_empty(&self) -> (b: bool)
        ensures
            b == (self.pairs().len() == 0),
    {
        self.entries.len() == 0
    }

    /// The pairs of the map, in order.
    pub fn entries(&self) -> (es: &Vec<(String, V)>)
        ensures
            es@.map_values(|e: (String, V)| (e.0@, e.1)) == self.pairs(),
    {
        &self.entries
    }

    /// The position of key `k`, if present.
    pub fn position(&self, k: &str) -> (r: Option<usize>)
        ensures
            match r {
                Some(i) => i < self.pairs().len() && self.pairs()[i as int].0 == k@ && forall|j: int|
                    0 <= j < self.pairs().len() && j != i ==> self.pairs()[j].0 != k@,
                None => !keys_of(self.pairs()).contains(k@),
            },
    {
        proof {
            use_type_invariant(self);
        }
        let r = find_key(&self.entries, k);
        proof {
            if let Some(i) = r {
                assert forall|j: int| 0 <= j < self.pairs().len() && j != i implies self.pairs()[j].0 != k@ by {
                    assert(keys_of(self.pairs())[j] != keys_of(self.pairs())[i as int]);
                    assert(self.pairs()[i as int].0 == self.entries@[i as int].0@);
                }
            }
            if r is None && keys_of(self.pairs()).contains(k@) {
                let j = keys_of(self.pairs()).index_of(k@);
                assert(self.pairs()[j].0 == self.entries@[j].0@);
            }
        }
        r
    }

    /// The value set for key `k`, if any.
    pub fn get(&self, k: &str) -> (r: Option<&V>)
        ensures
            match r {
                Some(v) => self.map().contains_key(k@) && *v == self.map()[k@],
                None => !self.map().contains_key(k@),
            },
    {
        proof {
            use_type_invariant(self);
            lemma_map_of_agree(self.pairs(), k@);
        }
        match self.position(k) {
            Some(i) => {
                proof {
                    lemma_lookup_index(self.pairs(), i as int);
                }
                Some(&self.entries[i].1)
            },
            None => None,
        }
    }

    /// Whether key `k` is set.
    pub fn contains_key(&self, k: &str) -> (b: bool)
        ensures
            b == self.map().contains_key(k@),
    {
        proof {
            use_type_invariant(self);
            lemma_map_of_agree(self.pairs(), k@);
        }
        match self.position(k) {
            Some(i) => {
                assert(keys_of(self.pairs())[i as int] == k@);
                true
            },
            None => false,
        }
    }

    /// Sets key `k` to `v`, returning the value it replaced. A new key goes last;
    /// an existing key keeps its place.
    pub fn insert(&mut self, k: String, v: V) -> (old_v: Option<V>)
        ensures
            final(self).map() == old(self).map().insert(k@, v),
            old_v == (if old(self).map().contains_key(k@) {
                Some(old(self).map()[k@])
            } else {
                None
            }),
            old(self).map().contains_key(k@) ==> final(self).pairs() == old(self).pairs().update(
                keys_of(old(self).pairs()).index_of(k@),
                (k@, v),
            ),
            !old(self).map().contains_key(k@) ==> final(self).pairs() == old(self).pairs().push(
                (k@, v),
            ),
    {
        proof {
            use_type_invariant(&*self);
            lemma_map_of_agree(self.pairs(), k@);
        }
        let ghost old_pairs = self.pairs();
        let mut es: Vec<(String, V)> = Vec::new();
        std::mem::swap(&mut es, &mut self.entries);
        let found = find_key(&es, k.as_str());
        match found {
            Some(i) => {
                proof {
                    lemma_lookup_index(old_pairs, i as int);
                    assert(keys_of(old_pairs)[i as int] == k@);
                    assert(keys_of(old_pairs).index_of(k@) == i) by {
                        let j = keys_of(old_pairs).index_of(k@);
                        if j != i {
                            assert(keys_of(old_pairs)[j] == keys_of(old_pairs)[i as int]);
                        }
                    }
                }
                let (ok, ov) = es.remove(i);
                es.insert(i, (k, v));
                let ghost new_pairs = es@.map_values(|e: (String, V)| (e.0@, e.1));
                assert(new_pairs =~= old_pairs.update(i as int, (k@, v)));
                assert(keys_of(new_pairs) =~= keys_of(old_pairs));
                proof {
                    assert forall|q: Seq<char>| #[trigger] map_of(new_pairs).contains_key(q)
                        == map_of(old_pairs).insert(k@, v).contains_key(q) && (map_of(
                        new_pairs,
                    ).contains_key(q) ==> map_of(new_pairs)[q] == map_of(old_pairs).insert(
                        k@,
                        v,
                    )[q]) by {
                        lemma_map_of_agree(new_pairs, q);
                        lemma_map_of_agree(old_pairs, q);
                    }
                    assert(map_of(new_pairs) =~= map_of(old_pairs).insert(k@, v));
                }
                self.entries = es;
                Some(ov)
            },
            None => {
                let ghost kv = k@;
                es.push((k, v));
                let ghost new_pairs = es@.map_values(|e: (String, V)| (e.0@, e.1));
                assert(new_pairs =~= old_pairs.push((kv, v)));
                proof {
                    assert(keys_of(new_pairs) =~= keys_of(old_pairs).push(kv));
                    assert(!keys_of(old_pairs).contains(kv)) by {
                        if keys_of(old_pairs).contains(kv) {
                            let j = keys_of(old_pairs).index_of(kv);
                            assert(old_pairs[j].0 == kv);
                            assert(old_pairs[j].0 == es@[j].0@);
                        }
                    }
                    assert(keys_of(new_pairs).no_duplicates()) by {
                        assert forall|a: int, b: int|
                            0 <= a < keys_of(new_pairs).len() && 0 <= b < keys_of(new_pairs).len()
                                && a != b implies keys_of(new_pairs)[a] != keys_of(new_pairs)[b] by {
                            if a == old_pairs.len() {
                                assert(keys_of(old_pairs)[b] == keys_of(new_pairs)[b]);
                            } else if b == old_pairs.len() {
                                assert(keys_of(old_pairs)[a] == keys_of(new_pairs)[a]);
                            }
                        }
                    }
                    assert forall|q: Seq<char>| #[trigger] map_of(new_pairs).contains_key(q)
                        == map_of(old_pairs).insert(kv, v).contains_key(q) && (map_of(
                        new_pairs,
                    ).contains_key(q) ==> map_of(new_pairs)[q] == map_of(old_pairs).insert(
                        kv,
                        v,
                    )[q]) by {
                        lemma_map_of_agree(new_pairs, q);
                        lemma_map_of_agree(old_pairs, q);
                        if q != kv && keys_of(old_pairs).contains(q) {
                            let j = keys_of(old_pairs).index_of(q);
                            assert(keys_of(new_pairs)[j] == q);
                            assert(keys_of(new_pairs).index_of(q) == j) by {
                                let jj = keys_of(new_pairs).index_of(q);
                                if jj != j {
                                    assert(keys_of(new_pairs)[jj] == keys_of(new_pairs)[j]);
                                }
                            }
                        }
                        if q == kv {
                            assert(keys_of(new_pairs)[old_pairs.len() as int] == kv);
                            assert(keys_of(new_pairs).index_of(q) == old_pairs.len()) by {
                                let jj = keys_of(new_pairs).index_of(q);
                                if jj != old_pairs.len() {
                                    assert(keys_of(new_pairs)[jj] == keys_of(
                                        new_pairs,
                                    )[old_pairs.len() as int]);
                                }
                            }
                        }
                        if q != kv && keys_of(new_pairs).contains(q) {
                            let jj = keys_of(new_pairs).index_of(q);
                            assert(keys_of(old_pairs)[jj] == q);
                        }
                    }
                    assert(map_of(new_pairs) =~= map_of(old_pairs).insert(kv, v));
                }
                self.entries = es;
                None
            },
        }
    }

    /// Removes key `k`, returning its value if it was set. The other keys keep their order.
    pub fn remove(&mut self, k: &str) -> (old_v: Option<V>)
        ensures
            final(self).map() == old(self).map().remove(k@),
            old_v == (if old(self).map().contains_key(k@) {
                Some(old(self).map()[k@])
            } else {
                None
            }),
    {
        proof {
            use_type_invariant(&*self);
            lemma_map_of_agree(self.pairs(), k@);
        }
        let ghost old_pairs = self.pairs();
        let mut es: Vec<(String, V)> = Vec::new();
        std::mem::swap(&mut es, &mut self.entries);
        match find_key(&es, k) {
            None => {
                proof {
                    if keys_of(old_pairs).contains(k@) {
                        let j = keys_of(old_pairs).index_of(k@);
                        assert(old_pairs[j].0 == es@[j].0@);
                    }
                    assert(map_of(old_pairs) =~= map_of(old_pairs).remove(k@));
                }
                self.entries = es;
                None
            },
            Some(i) => {
                proof {
                    lemma_lookup_index(old_pairs, i as int);
                    assert(old_pairs[i as int].0 == es@[i as int].0@);
                }
                let (_ok, ov) = es.remove(i);
                let ghost new_pairs = es@.map_values(|e: (String, V)| (e.0@, e.1));
                assert(new_pairs =~= old_pairs.remove(i as int));
                assert(keys_of(new_pairs) =~= keys_of(old_pairs).remove(i as int));
                proof {
                    assert(keys_of(new_pairs).no_duplicates()) by {
                        assert forall|a: int, b: int|
                            0 <= a < keys_of(new_pairs).len() && 0 <= b < keys_of(new_pairs).len()
                                && a != b implies keys_of(new_pairs)[a] != keys_of(new_pairs)[b] by {
                            let aa = if a < i { a } else { a + 1 };
                            let bb = if b < i { b } else { b + 1 };
                            assert(keys_of(new_pairs)[a] == keys_of(old_pairs)[aa]);
                            assert(keys_of(new_pairs)[b] == keys_of(old_pairs)[bb]);
                        }
                    }
                    assert forall|q: Seq<char>| #[trigger] map_of(new_pairs).contains_key(q)
                        == map_of(old_pairs).remove(k@).contains_key(q) && (map_of(
                        new_pairs,
                    ).contains_key(q) ==> map_of(new_pairs)[q] == map_of(old_pairs).remove(
                        k@,
                    )[q]) by {
                        lemma_map_of_agree(new_pairs, q);
                        lemma_map_of_agree(old_pairs, q);
                        assert(keys_of(old_pairs)[i as int] == k@);
                        if keys_of(new_pairs).contains(q) {
                            let jj = keys_of(new_pairs).index_of(q);
                            let oo = if jj < i { jj } else { jj + 1 };
                            assert(new_pairs[jj] == old_pairs[oo]);
                            assert(keys_of(old_pairs)[oo] == q);
                            assert(oo != i);
                            assert(keys_of(old_pairs).index_of(q) == oo) by {
                                let z = keys_of(old_pairs).index_of(q);
                                if z != oo {
                                    assert(keys_of(old_pairs)[z] == keys_of(old_pairs)[oo]);
                                }
                            }
                        }
                        if q != k@ && keys_of(old_pairs).contains(q) {
                            let z = keys_of(old_pairs).index_of(q);
                            assert(z != i);
                            let nz = if z < i { z } else { z - 1 };
                            assert(keys_of(new_pairs)[nz] == q);
                        }
                    }
                    assert(map_of(new_pairs) =~= map_of(old_pairs).remove(k@));
                }
                self.entries = es;
                Some(ov)
            },
        }
    }

    /// Puts `v` in place of the value at position `i`, keeping every key in its
    /// place, and returns the value it held.
    pub fn replace_at(&mut self, i: usize, v: V) -> (old_v: V)
        requires
            i < old(self).pairs().len(),
        ensures
            old_v == old(self).pairs()[i as int].1,
            final(self).pairs() == old(self).pairs().update(i as int, (old(self).pairs()[i as int].0, v)),
            final(self).map() == old(self).map().insert(old(self).pairs()[i as int].0, v),
    {
        proof {
            use_type_invariant(&*self);
        }
        let ghost old_pairs = self.pairs();
        let ghost k = old_pairs[i as int].0;
        let mut es: Vec<(String, V)> = Vec::new();
        std::mem::swap(&mut es, &mut self.entries);
        let (key, ov) = es.remove(i);
        es.insert(i, (key, v));
        let ghost new_pairs = es@.map_values(|e: (String, V)| (e.0@, e.1));
        assert(new_pairs =~= old_pairs.update(i as int, (k, v)));
        assert(keys_of(new_pairs) =~= keys_of(old_pairs));
        proof {
            lemma_lookup_index(old_pairs, i as int);
            assert forall|q: Seq<char>| #[trigger] map_of(new_pairs).contains_key(q)
                == map_of(old_pairs).insert(k, v).contains_key(q) && (map_of(new_pairs).contains_key(q)
                ==> map_of(new_pairs)[q] == map_of(old_pairs).insert(k, v)[q]) by {
                lemma_map_of_agree(new_pairs, q);
                lemma_map_of_agree(old_pairs, q);
                if q == k {
                    assert(keys_of(old_pairs).index_of(k) == i) by {
                        let j = keys_of(old_pairs).index_of(k);
                        assert(keys_of(old_pairs)[i as int] == k);
                        if j != i {
                            assert(keys_of(old_pairs)[j] == keys_of(old_pairs)[i as int]);
                        }
                    }
                }
            }
            assert(map_of(new_pairs) =~= map_of(old_pairs).insert(k, v));
        }
        self.entries = es;
        ov
    }

    /// Removes every key.
    pub fn clear(&mut self)
        ensures
            final(self).pairs() == Seq::<(Seq<char>, V)>::empty(),
            final(self).map() == Map::<Seq<char>, V>::empty(),
    {
        self.entries = Vec::new();
        assert(self.pairs() =~= Seq::<(Seq<char>, V)>::empty());
        assert(self.map() =~= Map::<Seq<char>, V>::empty());
    }

    /// Keeps only the keys that do not begin with `prefix`, in their order.
    pub fn retain_without_prefix(&mut self, prefix: &str)
        ensures
            final(self).map() == old(self).map().restrict(
                Set::new(|q: Seq<char>| !starts_with(q, prefix@)),
            ),
    {
        proof {
            use_type_invariant(&*self);
        }
        let ghost old_pairs = self.pairs();
        let pc = chars_of(prefix);
        let mut es: Vec<(String, V)> = Vec::new();
        std::mem::swap(&mut es, &mut self.entries);
        let mut kept: Vec<(String, V)> = Vec::new();
        let ghost mut idx: Seq<int> = Seq::empty();
        let n = es.len();
        let mut i: usize = 0;
        while i < n
            invariant
                n == old_pairs.len(),
                pc@ == prefix@,
                i <= n,
                keys_of(old_pairs).no_duplicates(),
                es@.len() == n - i,
                forall|j: int| 0 <= j < n - i ==> (#[trigger] es@[j].0@, es@[j].1) == old_pairs[j
                    + i],
                idx.len() == kept@.len(),
                forall|a: int, b: int| 0 <= a < b < idx.len() ==> idx[a] < idx[b],
                forall|a: int| 0 <= a < idx.len() ==> 0 <= #[trigger] idx[a] < i,
                forall|a: int|
                    0 <= a < idx.len() ==> (#[trigger] kept@[a].0@, kept@[a].1) == old_pairs[idx[a]],
                forall|a: int| 0 <= a < idx.len() ==> !starts_with(#[trigger] kept@[a].0@, prefix@),
                forall|m: int|
                    0 <= m < i && !starts_with(#[trigger] old_pairs[m].0, prefix@) ==> exists|a: int|
                        0 <= a < idx.len() && idx[a] == m,
            decreases n - i,
        {
            let ghost old_es = es@;
            let e = es.remove(0);
            assert forall|j: int| 0 <= j < n - i - 1 implies (#[trigger] es@[j].0@, es@[j].1)
                == old_pairs[j + i + 1] by {
                assert(es@[j] == old_es[j + 1]);
            }
            let kc = chars_of(e.0.as_str());
            assert(old_pairs[i as int] == (e.0@, e.1));
            let ghost ek = e.0@;
            let ghost old_idx = idx;
            let ghost old_kept = kept@;
            let has_prefix = starts_with_exec(kc.as_slice(), pc.as_slice());
            assert(kc@ == ek);
            assert(has_prefix == starts_with(ek, prefix@));
            if !has_prefix {
                proof {
                    idx = idx.push(i as int);
                }
                kept.push(e);
                assert(kept@[kept@.len() - 1].0@ == ek);
                assert forall|a: int| 0 <= a < old_idx.len() implies idx[a] == old_idx[a]
                    && kept@[a] == old_kept[a] by {}
                assert forall|m: int|
                    0 <= m < i + 1 && !starts_with(#[trigger] old_pairs[m].0, prefix@) implies exists|
                        a: int,
                    | 0 <= a < idx.len() && idx[a] == m by {
                    if m < i {
                        let a = choose|a: int| 0 <= a < old_idx.len() && old_idx[a] == m;
                        assert(idx[a] == m);
                    } else {
                        assert(idx[idx.len() - 1] == m);
                    }
                }
            } else {
                assert forall|m: int|
                    0 <= m < i + 1 && !starts_with(#[trigger] old_pairs[m].0, prefix@) implies exists|
                        a: int,
                    | 0 <= a < idx.len() && idx[a] == m by {
                    if m == i {
                        assert(starts_with(old_pairs[m].0, prefix@));
                    }
                }
            }
            i = i + 1;
        }
        let ghost new_pairs = kept@.map_values(|e: (String, V)| (e.0@, e.1));
        proof {
            assert(keys_of(new_pairs).no_duplicates()) by {
                assert forall|a: int, b: int|
                    0 <= a < keys_of(new_pairs).len() && 0 <= b < keys_of(new_pairs).len() && a
                        != b implies keys_of(new_pairs)[a] != keys_of(new_pairs)[b] by {
                    assert(keys_of(new_pairs)[a] == keys_of(old_pairs)[idx[a]]);
                    assert(keys_of(new_pairs)[b] == keys_of(old_pairs)[idx[b]]);
                    assert(idx[a] != idx[b]);
                }
            }
            let want = map_of(old_pairs).restrict(
                Set::new(|q: Seq<char>| !starts_with(q, prefix@)),
            );
            assert forall|q: Seq<char>| #[trigger] map_of(new_pairs).contains_key(q)
                == want.contains_key(q) && (map_of(new_pairs).contains_key(q) ==> map_of(
                new_pairs,
            )[q] == want[q]) by {
                lemma_map_of_agree(new_pairs, q);
                lemma_map_of_agree(old_pairs, q);
                if keys_of(new_pairs).contains(q) {
                    let jj = keys_of(new_pairs).index_of(q);
                    let oo = idx[jj];
                    assert(keys_of(old_pairs)[oo] == q);
                    assert(keys_of(old_pairs).index_of(q) == oo) by {
                        let z = keys_of(old_pairs).index_of(q);
                        if z != oo {
                            assert(keys_of(old_pairs)[z] == keys_of(old_pairs)[oo]);
                        }
                    }
                    assert(!starts_with(kept@[jj].0@, prefix@));
                }
                if keys_of(old_pairs).contains(q) && !starts_with(q, prefix@) {
                    let z = keys_of(old_pairs).index_of(q);
                    assert(!starts_with(old_pairs[z].0, prefix@));
                    let a = choose|a: int| 0 <= a < idx.len() && idx[a] == z;
                    assert(keys_of(new_pairs)[a] == q);
                }
            }
            assert(map_of(new_pairs) =~= want);
        }
        self.entries = kept;
    }
}

impl StringMap<String> {
    /// An identical copy.
    pub fn duplicate(&self) -> (r: Self)
        ensures
            r.pairs() == self.pairs(),
    {
        proof {
            use_type_invariant(self);
        }
        let mut es: Vec<(String, String)> = Vec::new();
        let mut i: usize = 0;
        while i < self.entries.len()
            invariant
                i <= self.entries@.len(),
                es@ == self.entries@.take(i as int),
            decreases self.entries@.len() - i,
        {
            let k = self.entries[i].0.clone();
            let v = self.entries[i].1.clone();
            es.push((k, v));
            i = i + 1;
            assert(es@ =~= self.entries@.take(i as int));
        }
        assert(self.entries@.take(self.entries@.len() as int) =~= self.entries@);
        StringMap { entries: es }
    }
}

} // verus!
