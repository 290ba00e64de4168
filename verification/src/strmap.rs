//! A finite map from strings to strings, kept as a list of entries in which
//! no key occurs twice.
use vstd::prelude::*;

use crate::text::str_chars;

verus! {

/// Some entry of `e` has key `k`.
pub open spec fn has_key(e: Seq<(String, String)>, k: Seq<char>) -> bool {
    exists|i: int| 0 <= i < e.len() && (#[trigger] e[i]).0@ == k
}

/// No two entries of `e` share a key.
pub open spec fn unique_keys(e: Seq<(String, String)>) -> bool {
    forall|i: int, j: int| 0 <= i < j < e.len() ==> (#[trigger] e[i]).0@ != (#[trigger] e[j]).0@
}

/// The map that a list of (key, value) entries denotes.
pub open spec fn entries_map(e: Seq<(String, String)>) -> Map<Seq<char>, Seq<char>> {
    Map::new(
        |k: Seq<char>| has_key(e, k),
        |k: Seq<char>| e[choose|i: int| 0 <= i < e.len() && (#[trigger] e[i]).0@ == k].1@,
    )
}

pub(crate) proof fn lemma_entries_map_at(e: Seq<(String, String)>, i: int)
    requires
        unique_keys(e),
        0 <= i < e.len(),
    ensures
        entries_map(e).contains_key(e[i].0@),
        entries_map(e)[e[i].0@] == e[i].1@,
{
    let k = e[i].0@;
    assert(has_key(e, k));
    let j = choose|j: int| 0 <= j < e.len() && (#[trigger] e[j]).0@ == k;
    if j != i {
        if j < i {
            assert(e[j].0@ != e[i].0@);
        } else {
            assert(e[i].0@ != e[j].0@);
        }
    }
}

/// Whether two strings hold the same characters.
pub fn str_eq(a: &str, b: &str) -> (r: bool)
    ensures
        r == (a@ == b@),
{
    let ac = str_chars(a);
    let bc = str_chars(b);
    if ac.len() != bc.len() {
        return false;
    }
    let mut i: usize = 0;
    while i < ac.len()
        invariant
            i <= ac@.len(),
            ac@ == a@,
            bc@ == b@,
            ac@.len() == bc@.len(),
            forall|k: int| 0 <= k < i ==> ac@[k] == bc@[k],
        decreases ac@.len() - i,
    {
        if ac[i] != bc[i] {
            assert(ac@[i as int] != bc@[i as int]);
            return false;
        }
        i = i + 1;
    }
    assert(ac@ =~= bc@);
    true
}

/// A map from strings to strings.
#[derive(Debug)]
pub struct StrMap {
    entries: Vec<(String, String)>,
}

impl View for StrMap {
    type V = Map<Seq<char>, Seq<char>>;

    closed spec fn view(&self) -> Map<Seq<char>, Seq<char>> {
        entries_map(self.entries@)
    }
}

impl Clone for StrMap {
    fn clone(&self) -> (c: Self)
        ensures
            c@ == self@,
    {
        StrMap { entries: self.to_vec() }
    }
}

impl StrMap {
    #[verifier::type_invariant]
    spec fn inv(self) -> bool {
        unique_keys(self.entries@)
    }

    /// The empty map.
    pub fn new() -> (m: Self)
        ensures
            m@ == Map::<Seq<char>, Seq<char>>::empty(),
    {
        let m = StrMap { entries: Vec::new() };
        assert(entries_map(m.entries@) =~= Map::<Seq<char>, Seq<char>>::empty());
        m
    }

    fn find(&self, key: &str) -> (r: Option<usize>)
        ensures
            match r {
                Some(i) => i < self.entries@.len() && self.entries@[i as int].0@ == key@,
                None => !has_key(self.entries@, key@),
            },
    {
        let mut i: usize = 0;
        while i < self.entries.len()
            invariant
                i <= self.entries@.len(),
                forall|k: int| 0 <= k < i ==> (#[trigger] self.entries@[k]).0@ != key@,
            decreases self.entries@.len() - i,
        {
            if str_eq(self.entries[i].0.as_str(), key) {
                return Some(i);
            }
            i = i + 1;
        }
        None
    }


    /// The value stored under `key`.
    pub fn get(&self, key: &str) -> (r: Option<&str>)
        ensures
            match r {
                Some(s) => self@.contains_key(key@) && self@[key@] == s@,
                None => !self@.contains_key(key@),
            },
    {
        proof {
            use_type_invariant(self);
        }
        match self.find(key) {
            Some(i) => {
                proof {
                    lemma_entries_map_at(self.entries@, i as int);
                }
                Some(self.entries[i].1.as_str())
            },
            None => None,
        }
    }

    /// Store `value` under `key`; true when `key` had no value before.
    pub fn insert(&mut self, key: &str, value: &str) -> (new: bool)
        ensures
            final(self)@ == old(self)@.insert(key@, value@),
            new == !old(self)@.contains_key(key@),
    {
        proof {
            use_type_invariant(&*self);
        }
        let ghost old_e = self.entries@;
        match self.find(key) {
            Some(i) => {
                let mut entries: Vec<(String, String)> = Vec::new();
                core::mem::swap(&mut entries, &mut self.entries);
                entries.set(i, (key.to_owned(), value.to_owned()));
                proof {
                    let e = entries@;
                    assert(e == old_e.update(i as int, e[i as int]));
                    assert(unique_keys(e)) by {
                        assert forall|a: int, b: int| 0 <= a < b < e.len() implies (
                        #[trigger] e[a]).0@ != (#[trigger] e[b]).0@ by {
                            if a != i && b != i {
                                assert(old_e[a].0@ != old_e[b].0@);
                            } else if a == i {
                                assert(old_e[a].0@ != old_e[b].0@);
                            } else {
                                assert(old_e[a].0@ != old_e[b].0@);
                            }
                        }
                    }
                    assert(entries_map(e) =~= entries_map(old_e).insert(key@, value@)) by {
                        assert forall|k: Seq<char>| #[trigger]
                            entries_map(e).contains_key(k) == entries_map(old_e).insert(
                                key@,
                                value@,
                            ).contains_key(k) by {
                            if has_key(e, k) {
                                let j = choose|j: int| 0 <= j < e.len() && (#[trigger] e[j]).0@ == k;
                                assert(old_e[j].0@ == k);
                            }
                            if has_key(old_e, k) {
                                let j = choose|j: int| 0 <= j < old_e.len() && (#[trigger] old_e[j]).0@
                                    == k;
                                assert(e[j].0@ == k);
                            }
                        }
                        assert forall|k: Seq<char>| #[trigger]
                            entries_map(e).contains_key(k) implies entries_map(e)[k]
                            == entries_map(old_e).insert(key@, value@)[k] by {
                            let j = choose|j: int| 0 <= j < e.len() && (#[trigger] e[j]).0@ == k;
                            lemma_entries_map_at(e, j);
                            if j != i {
                                lemma_entries_map_at(old_e, j);
                            }
                        }
                    }
                }
                self.entries = entries;
                false
            },
            None => {
                let mut entries: Vec<(String, String)> = Vec::new();
                core::mem::swap(&mut entries, &mut self.entries);
                entries.push((key.to_owned(), value.to_owned()));
                proof {
                    let e = entries@;
                    assert(unique_keys(e)) by {
                        assert forall|a: int, b: int| 0 <= a < b < e.len() implies (
                        #[trigger] e[a]).0@ != (#[trigger] e[b]).0@ by {
                            if b == e.len() - 1 {
                                assert(old_e[a].0@ != key@);
                            } else {
                                assert(old_e[a].0@ != old_e[b].0@);
                            }
                        }
                    }
                    assert(entries_map(e) =~= entries_map(old_e).insert(key@, value@)) by {
                        assert forall|k: Seq<char>| #[trigger]
                            entries_map(e).contains_key(k) == entries_map(old_e).insert(
                                key@,
                                value@,
                            ).contains_key(k) by {
                            if has_key(e, k) {
                                let j = choose|j: int| 0 <= j < e.len() && (#[trigger] e[j]).0@ == k;
                                if j < old_e.len() {
                                    assert(old_e[j].0@ == k);
                                }
                            }
                            if has_key(old_e, k) {
                                let j = choose|j: int| 0 <= j < old_e.len() && (#[trigger] old_e[j]).0@
                                    == k;
                                assert(e[j].0@ == k);
                            }
                            if k == key@ {
                                assert(e[e.len() - 1].0@ == k);
                            }
                        }
                        assert forall|k: Seq<char>| #[trigger]
                            entries_map(e).contains_key(k) implies entries_map(e)[k]
                            == entries_map(old_e).insert(key@, value@)[k] by {
                            let j = choose|j: int| 0 <= j < e.len() && (#[trigger] e[j]).0@ == k;
                            lemma_entries_map_at(e, j);
                            if j < old_e.len() {
                                lemma_entries_map_at(old_e, j);
                            }
                        }
                    }
                }
                self.entries = entries;
                true
            },
        }
    }

    /// Drop the value under `key`; true when there was one.
    pub fn remove(&mut self, key: &str) -> (had: bool)
        ensures
            final(self)@ == old(self)@.remove(key@),
            had == old(self)@.contains_key(key@),
    {
        proof {
            use_type_invariant(&*self);
        }
        let ghost old_e = self.entries@;
        match self.find(key) {
            Some(i) => {
                let mut entries: Vec<(String, String)> = Vec::new();
                core::mem::swap(&mut entries, &mut self.entries);
                entries.remove(i);
                proof {
                    let e = entries@;
                    assert(forall|a: int| 0 <= a < e.len() ==> #[trigger] e[a] == (if a < i {
                        old_e[a]
                    } else {
                        old_e[a + 1]
                    }));
                    assert(unique_keys(e)) by {
                        assert forall|a: int, b: int| 0 <= a < b < e.len() implies (
                        #[trigger] e[a]).0@ != (#[trigger] e[b]).0@ by {
                            let a2 = if a < i {
                                a
                            } else {
                                a + 1
                            };
                            let b2 = if b < i {
                                b
                            } else {
                                b + 1
                            };
                            assert(old_e[a2].0@ != old_e[b2].0@);
                        }
                    }
                    assert(entries_map(e) =~= entries_map(old_e).remove(key@)) by {
                        assert forall|k: Seq<char>| #[trigger]
                            entries_map(e).contains_key(k) == entries_map(old_e).remove(
                                key@,
                            ).contains_key(k) by {
                            if has_key(e, k) {
                                let j = choose|j: int| 0 <= j < e.len() && (#[trigger] e[j]).0@ == k;
                                let j2 = if j < i {
                                    j
                                } else {
                                    j + 1
                                };
                                assert(old_e[j2].0@ == k);
                                assert(old_e[i as int].0@ != k) by {
                                    if j2 < i {
                                        assert(old_e[j2].0@ != old_e[i as int].0@);
                                    } else {
                                        assert(old_e[i as int].0@ != old_e[j2].0@);
                                    }
                                }
                            }
                            if has_key(old_e, k) && k != key@ {
                                let j = choose|j: int| 0 <= j < old_e.len() && (#[trigger] old_e[j]).0@
                                    == k;
                                if j < i {
                                    assert(e[j].0@ == k);
                                } else {
                                    assert(j != i);
                                    assert(e[j - 1].0@ == k);
                                }
                            }
                        }
                        assert forall|k: Seq<char>| #[trigger]
                            entries_map(e).contains_key(k) implies entries_map(e)[k]
                            == entries_map(old_e).remove(key@)[k] by {
                            let j = choose|j: int| 0 <= j < e.len() && (#[trigger] e[j]).0@ == k;
                            lemma_entries_map_at(e, j);
                            let j2 = if j < i {
                                j
                            } else {
                                j + 1
                            };
                            lemma_entries_map_at(old_e, j2);
                        }
                    }
                }
                self.entries = entries;
                true
            },
            None => {
                assert(entries_map(old_e).remove(key@) =~= entries_map(old_e));
                false
            },
        }
    }

    /// All (key, value) pairs, each key once.
    pub fn to_vec(&self) -> (v: Vec<(String, String)>)
        ensures
            entries_map(v@) == self@,
            unique_keys(v@),
    {
        proof {
            use_type_invariant(self);
        }
        let mut v: Vec<(String, String)> = Vec::new();
        let mut i: usize = 0;
        while i < self.entries.len()
            invariant
                i <= self.entries@.len(),
                v@.len() == i,
                forall|k: int| 0 <= k < i ==> (#[trigger] v@[k]).0@ == self.entries@[k].0@ && v@[k].1@
                    == self.entries@[k].1@,
            decreases self.entries@.len() - i,
        {
            let (h, s) = (self.entries[i].0.clone(), self.entries[i].1.clone());
            v.push((h, s));
            i = i + 1;
        }
        proof {
            let e = self.entries@;
            assert(unique_keys(v@)) by {
                assert forall|a: int, b: int| 0 <= a < b < v@.len() implies (
                #[trigger] v@[a]).0@ != (#[trigger] v@[b]).0@ by {
                    assert(e[a].0@ != e[b].0@);
                }
            }
            assert(entries_map(v@) =~= entries_map(e)) by {
                assert forall|k: Seq<char>| #[trigger]
                    entries_map(v@).contains_key(k) == entries_map(e).contains_key(k) by {
                    if has_key(v@, k) {
                        let j = choose|j: int| 0 <= j < v@.len() && (#[trigger] v@[j]).0@ == k;
                        assert(e[j].0@ == k);
                    }
                    if has_key(e, k) {
                        let j = choose|j: int| 0 <= j < e.len() && (#[trigger] e[j]).0@ == k;
                        assert(v@[j].0@ == k);
                    }
                }
                assert forall|k: Seq<char>| #[trigger]
                    entries_map(v@).contains_key(k) implies entries_map(v@)[k] == entries_map(e)[k] by {
                    let j = choose|j: int| 0 <= j < v@.len() && (#[trigger] v@[j]).0@ == k;
                    lemma_entries_map_at(v@, j);
                    lemma_entries_map_at(e, j);
                }
            }
        }
        v
    }

    /// Number of keys.
    pub fn len(&self) -> (n: usize)
        ensures
            n == self@.len(),
    {
        proof {
            use_type_invariant(self);
            lemma_entries_map_len(self.entries@);
        }
        self.entries.len()
    }

    /// The keys whose value is `value`, each once.
    pub fn keys_with_value(&self, value: &str) -> (r: Vec<String>)
        ensures
            forall|i: int| 0 <= i < r@.len() ==> self@.contains_key(#[trigger] r@[i]@) && self@[r@[i]@] == value@,
            forall|k: Seq<char>| #[trigger] self@.contains_key(k) && self@[k] == value@ ==> exists|i: int| 0 <= i < r@.len() && r@[i]@ == k,
            forall|i: int, j: int| 0 <= i < j < r@.len() ==> (#[trigger] r@[i])@ != (#[trigger] r@[j])@,
    {
        proof {
            use_type_invariant(self);
        }
        let ghost e = self.entries@;
        let mut r: Vec<String> = Vec::new();
        let ghost mut idx: Seq<int> = Seq::empty();
        let mut i: usize = 0;
        while i < self.entries.len()
            invariant
                e == self.entries@,
                unique_keys(e),
                i <= e.len(),
                idx.len() == r@.len(),
                forall|a: int| 0 <= a < idx.len() ==> 0 <= #[trigger] idx[a] < i && r@[a]@ == e[idx[a]].0@ && e[idx[a]].1@ == value@,
                forall|a: int, b: int| 0 <= a < b < idx.len() ==> #[trigger] idx[a] < #[trigger] idx[b],
                forall|j: int| 0 <= j < i && (#[trigger] e[j]).1@ == value@ ==> exists|a: int| 0 <= a < idx.len() && idx[a] == j,
            decreases e.len() - i,
        {
            let ghost idx0 = idx;
            if str_eq(self.entries[i].1.as_str(), value) {
                r.push(self.entries[i].0.clone());
                proof {
                    idx = idx.push(i as int);
                    assert(idx[idx.len() - 1] == i);
                }
            }
            i = i + 1;
            proof {
                assert forall|j: int| 0 <= j < i && (#[trigger] e[j]).1@ == value@ implies exists|a: int| 0 <= a < idx.len() && idx[a] == j by {
                    if j < i - 1 {
                        let a = choose|a: int| 0 <= a < idx0.len() && idx0[a] == j;
                        assert(idx[a] == j);
                    } else {
                        assert(idx[idx.len() - 1] == j);
                    }
                }
            }
        }
        proof {
            assert forall|a: int| 0 <= a < r@.len() implies self@.contains_key(#[trigger] r@[a]@) && self@[r@[a]@] == value@ by {
                lemma_entries_map_at(e, idx[a]);
            }
            assert forall|k: Seq<char>| #[trigger] self@.contains_key(k) && self@[k] == value@ implies exists|a: int| 0 <= a < r@.len() && r@[a]@ == k by {
                let j = choose|j: int| 0 <= j < e.len() && (#[trigger] e[j]).0@ == k;
                lemma_entries_map_at(e, j);
                let a = choose|a: int| 0 <= a < idx.len() && idx[a] == j;
                assert(r@[a]@ == k);
            }
            assert forall|a: int, b: int| 0 <= a < b < r@.len() implies (#[trigger] r@[a])@ != (#[trigger] r@[b])@ by {
                assert(idx[a] < idx[b]);
                assert(e[idx[a]].0@ != e[idx[b]].0@);
            }
        }
        r
    }

    /// Drop every key whose value is `value`.
    pub fn remove_with_value(&mut self, value: &str)
        ensures
            final(self)@ == Map::new(
                |k: Seq<char>| old(self)@.contains_key(k) && old(self)@[k] != value@,
                |k: Seq<char>| old(self)@[k],
            ),
    {
        proof {
            use_type_invariant(&*self);
        }
        let ghost e = self.entries@;
        let mut kept: Vec<(String, String)> = Vec::new();
        let ghost mut idx: Seq<int> = Seq::empty();
        let mut i: usize = 0;
        while i < self.entries.len()
            invariant
                e == self.entries@,
                unique_keys(e),
                i <= e.len(),
                idx.len() == kept@.len(),
                forall|a: int| 0 <= a < idx.len() ==> 0 <= #[trigger] idx[a] < i && kept@[a].0@ == e[idx[a]].0@ && kept@[a].1@ == e[idx[a]].1@ && e[idx[a]].1@ != value@,
                forall|a: int, b: int| 0 <= a < b < idx.len() ==> #[trigger] idx[a] < #[trigger] idx[b],
                forall|j: int| 0 <= j < i && (#[trigger] e[j]).1@ != value@ ==> exists|a: int| 0 <= a < idx.len() && idx[a] == j,
            decreases e.len() - i,
        {
            let ghost idx0 = idx;
            if !str_eq(self.entries[i].1.as_str(), value) {
                let k = self.entries[i].0.clone();
                let v = self.entries[i].1.clone();
                kept.push((k, v));
                proof {
                    idx = idx.push(i as int);
                    assert(idx[idx.len() - 1] == i);
                }
            }
            i = i + 1;
            proof {
                assert forall|j: int| 0 <= j < i && (#[trigger] e[j]).1@ != value@ implies exists|a: int| 0 <= a < idx.len() && idx[a] == j by {
                    if j < i - 1 {
                        let a = choose|a: int| 0 <= a < idx0.len() && idx0[a] == j;
                        assert(idx[a] == j);
                    } else {
                        assert(idx[idx.len() - 1] == j);
                    }
                }
            }
        }
        let ghost target = Map::new(
            |k: Seq<char>| entries_map(e).contains_key(k) && entries_map(e)[k] != value@,
            |k: Seq<char>| entries_map(e)[k],
        );
        proof {
            let kv = kept@;
            assert(unique_keys(kv)) by {
                assert forall|a: int, b: int| 0 <= a < b < kv.len() implies (#[trigger] kv[a]).0@ != (#[trigger] kv[b]).0@ by {
                    assert(idx[a] < idx[b]);
                    assert(e[idx[a]].0@ != e[idx[b]].0@);
                }
            }
            assert(entries_map(kv) =~= target) by {
                assert forall|k: Seq<char>| #[trigger] entries_map(kv).contains_key(k) == target.contains_key(k) by {
                    if has_key(kv, k) {
                        let a = choose|a: int| 0 <= a < kv.len() && (#[trigger] kv[a]).0@ == k;
                        lemma_entries_map_at(e, idx[a]);
                    }
                    if target.contains_key(k) {
                        let j = choose|j: int| 0 <= j < e.len() && (#[trigger] e[j]).0@ == k;
                        lemma_entries_map_at(e, j);
                        let a = choose|a: int| 0 <= a < idx.len() && idx[a] == j;
                        assert(kv[a].0@ == k);
                    }
                }
                assert forall|k: Seq<char>| #[trigger] entries_map(kv).contains_key(k) implies entries_map(kv)[k] == target[k] by {
                    let a = choose|a: int| 0 <= a < kv.len() && (#[trigger] kv[a]).0@ == k;
                    lemma_entries_map_at(kv, a);
                    lemma_entries_map_at(e, idx[a]);
                }
            }
        }
        self.entries = kept;
    }
}

/// A list of entries with distinct keys has as many entries as its map has
/// keys.
proof fn lemma_entries_map_len(e: Seq<(String, String)>)
    requires
        unique_keys(e),
    ensures
        entries_map(e).dom().finite(),
        entries_map(e).len() == e.len(),
    decreases e.len(),
{
    if e.len() == 0 {
        assert(entries_map(e).dom() =~= Set::<Seq<char>>::empty());
    } else {
        let p = e.drop_last();
        assert(unique_keys(p)) by {
            assert forall|a: int, b: int| 0 <= a < b < p.len() implies (#[trigger] p[a]).0@ != (#[trigger] p[b]).0@ by {
                assert(e[a].0@ != e[b].0@);
            }
        }
        lemma_entries_map_len(p);
        let k = e.last().0@;
        assert(!entries_map(p).dom().contains(k)) by {
            if has_key(p, k) {
                let j = choose|j: int| 0 <= j < p.len() && (#[trigger] p[j]).0@ == k;
                assert(e[j].0@ != e[e.len() - 1].0@);
            }
        }
        assert(entries_map(e).dom() =~= entries_map(p).dom().insert(k)) by {
            assert forall|x: Seq<char>| #[trigger] entries_map(e).dom().contains(x) == entries_map(p).dom().insert(k).contains(x) by {
                if has_key(e, x) {
                    let j = choose|j: int| 0 <= j < e.len() && (#[trigger] e[j]).0@ == x;
                    if j < p.len() {
                        assert(p[j].0@ == x);
                    }
                }
                if has_key(p, x) {
                    let j = choose|j: int| 0 <= j < p.len() && (#[trigger] p[j]).0@ == x;
                    assert(e[j].0@ == x);
                }
                if x == k {
                    assert(e[e.len() - 1].0@ == x);
                }
            }
        }
    }
}

} // verus!
