//! A map from names to values that keeps its entries in ascending order of name, so
//! that walking it always visits the names in the same order.

use crate::text::{lemma_precedes_asymmetric, lemma_precedes_transitive, order, precedes, Rank};
use vstd::prelude::*;

verus! {

/// A map from names to values, held in ascending order of name.
#[derive(Debug, PartialEq)]
pub struct Dict<V> {
    entries: Vec<(String, V)>,
}

/// Every key stands before all the keys after it.
pub open spec fn ascending(keys: Seq<Seq<char>>) -> bool {
    forall|i: int, j: int| 0 <= i < j < keys.len() ==> precedes(#[trigger] keys[i], #[trigger] keys[j])
}

/// In an ascending sequence no key occurs twice.
pub proof fn lemma_ascending_distinct(keys: Seq<Seq<char>>, i: int, j: int)
    requires
        ascending(keys),
        0 <= i < keys.len(),
        0 <= j < keys.len(),
        keys[i] == keys[j],
    ensures
        i == j,
{
    if i < j {
        lemma_precedes_asymmetric(keys[i], keys[j]);
    } else if j < i {
        lemma_precedes_asymmetric(keys[j], keys[i]);
    }
}

spec fn keys_of<V>(entries: Seq<(String, V)>) -> Seq<Seq<char>> {
    Seq::new(entries.len(), |i: int| entries[i].0@)
}

spec fn values_of<V>(entries: Seq<(String, V)>) -> Seq<V> {
    Seq::new(entries.len(), |i: int| entries[i].1)
}

impl<V> Dict<V> {
    /// The keys, in the order in which the map is walked.
    pub closed spec fn keys(&self) -> Seq<Seq<char>> {
        keys_of(self.entries@)
    }

    /// The values, each at the position of its key.
    pub closed spec fn values(&self) -> Seq<V> {
        values_of(self.entries@)
    }

    /// Keys and values are as many, and the keys ascend.
    pub open spec fn wf(&self) -> bool {
        &&& self.keys().len() == self.values().len()
        &&& ascending(self.keys())
    }

    #[verifier::type_invariant]
    closed spec fn inv(&self) -> bool {
        self.wf()
    }

    /// Whether `key` is among the keys.
    pub open spec fn has(&self, key: Seq<char>) -> bool {
        self.keys().contains(key)
    }

    /// The position of `key` among the keys.
    pub open spec fn position(&self, key: Seq<char>) -> int {
        self.keys().index_of(key)
    }

    /// The value that `key` is mapped to; meaningful where `has(key)`.
    pub open spec fn value_of(&self, key: Seq<char>) -> V {
        self.values()[self.position(key)]
    }

    /// The map as a mathematical map.
    pub open spec fn map(&self) -> Map<Seq<char>, V> {
        Map::new(|k: Seq<char>| self.has(k), |k: Seq<char>| self.value_of(k))
    }

    /// An empty map.
    pub fn new() -> (d: Self)
        ensures
            d.keys() == Seq::<Seq<char>>::empty(),
            d.values() == Seq::<V>::empty(),
            d.map() == Map::<Seq<char>, V>::empty(),
            d.wf(),
    {
        let d = Dict { entries: Vec::new() };
        assert(d.keys() =~= Seq::<Seq<char>>::empty());
        assert(d.values() =~= Seq::<V>::empty());
        assert(d.map() =~= Map::<Seq<char>, V>::empty());
        d
    }

    /// The number of entries.
    pub fn len(&self) -> (n: usize)
        ensures
            n == self.keys().len(),
            n == self.values().len(),
            self.wf(),
    {
        proof {
            use_type_invariant(self);
        }
        self.entries.len()
    }

    /// The key at position `i`.
    pub fn key_at(&self, i: usize) -> (k: &String)
        requires
            i < self.keys().len(),
        ensures
            k@ == self.keys()[i as int],
    {
        &self.entries[i].0
    }

    /// The value at position `i`.
    pub fn value_at(&self, i: usize) -> (v: &V)
        requires
            i < self.values().len(),
        ensures
            *v == self.values()[i as int],
    {
        &self.entries[i].1
    }

    /// The keys, in ascending order.
    pub fn key_list(&self) -> (r: Vec<String>)
        ensures
            r.deep_view() == self.keys(),
    {
        let mut r: Vec<String> = Vec::new();
        let mut i: usize = 0;
        while i < self.entries.len()
            invariant
                i <= self.entries.len(),
                r.len() == i,
                forall|j: int| 0 <= j < i ==> r[j]@ == self.entries[j].0@,
            decreases self.entries.len() - i,
        {
            r.push(self.entries[i].0.clone());
            i += 1;
        }
        assert(r.deep_view() =~= self.keys());
        r
    }

    /// The position of the first key that does not stand before `key`.
    fn slot(&self, key: &str) -> (p: usize)
        ensures
            p <= self.keys().len(),
            forall|i: int| 0 <= i < p ==> precedes(#[trigger] self.keys()[i], key@),
            p < self.keys().len() ==> !precedes(self.keys()[p as int], key@),
            self.has(key@) <==> (p < self.keys().len() && self.keys()[p as int] == key@),
            self.has(key@) ==> self.position(key@) == p,
    {
        proof {
            use_type_invariant(self);
        }
        let mut p: usize = 0;
        let mut stop = false;
        while !stop && p < self.entries.len()
            invariant
                p <= self.entries.len(),
                forall|i: int| 0 <= i < p ==> precedes(#[trigger] self.keys()[i], key@),
                stop ==> p < self.entries.len() && !precedes(self.keys()[p as int], key@),
            decreases self.entries.len() - p, (if stop { 0int } else { 1int }),
        {
            match order(self.entries[p].0.as_str(), key) {
                Rank::Before => {
                    p += 1;
                },
                _ => {
                    stop = true;
                },
            }
        }
        proof {
            let keys = self.keys();
            if self.has(key@) {
                let q = keys.index_of(key@);
                if q < p {
                    lemma_precedes_asymmetric(keys[q], key@);
                }
                if q > p {
                    lemma_precedes_asymmetric(keys[p as int], keys[q]);
                    assert(p < keys.len());
                    if keys[p as int] != key@ {
                        assert(precedes(key@, keys[p as int])) by {
                            assert(!precedes(keys[p as int], key@));
                        }
                    }
                }
                assert(q == p);
            }
            if p < keys.len() && keys[p as int] == key@ {
                assert(keys.contains(key@));
            }
        }
        p
    }

    /// Whether `key` is among the keys.
    pub fn contains_key(&self, key: &str) -> (r: bool)
        ensures
            r == self.has(key@),
            r == self.map().dom().contains(key@),
    {
        let p = self.slot(key);
        p < self.entries.len() && crate::text::same(self.entries[p].0.as_str(), key)
    }

    /// The value that `key` is mapped to, if it is among the keys.
    pub fn get(&self, key: &str) -> (r: Option<&V>)
        ensures
            r is Some <==> self.has(key@),
            r is Some ==> *r->0 == self.value_of(key@),
            r is Some <==> self.map().dom().contains(key@),
            r is Some ==> *r->0 == self.map()[key@],
    {
        let p = self.slot(key);
        if p < self.entries.len() && crate::text::same(self.entries[p].0.as_str(), key) {
            Some(&self.entries[p].1)
        } else {
            None
        }
    }

    /// Maps `key` to `value`, in place of what it was mapped to before, if anything.
    pub fn insert(&mut self, key: String, value: V)
        ensures
            final(self).map() == old(self).map().insert(key@, value),
            final(self).has(key@),
            final(self).value_of(key@) == value,
            forall|k: Seq<char>| k != key@ ==> (final(self).has(k) == old(self).has(k)),
            forall|k: Seq<char>| k != key@ && old(self).has(k) ==> final(self).value_of(k) == old(self).value_of(k),
            final(self).keys().len() == old(self).keys().len() + (if old(self).has(key@) { 0int } else { 1int }),
            final(self).wf(),
    {
        proof {
            use_type_invariant(&*self);
        }
        let p = self.slot(key.as_str());
        let ghost before = *self;
        let ghost k = key@;
        let found = p < self.entries.len() && crate::text::same(
            self.entries[p].0.as_str(),
            key.as_str(),
        );
        let mut entries: Vec<(String, V)> = Vec::new();
        proof {
            assert(keys_of(entries@) =~= Seq::<Seq<char>>::empty());
            assert(values_of(entries@) =~= Seq::<V>::empty());
        }
        core::mem::swap(&mut self.entries, &mut entries);
        if found {
            entries.set(p, (key, value));
            proof {
                assert(keys_of(entries@) =~= before.keys());
                assert(values_of(entries@) =~= before.values().update(p as int, value));
            }
        } else {
            entries.insert(p, (key, value));
            proof {
                let keys = before.keys();
                let after_keys = keys.insert(p as int, k);
                assert(keys_of(entries@) =~= after_keys);
                assert(values_of(entries@) =~= before.values().insert(p as int, value));
                assert forall|i: int, j: int| 0 <= i < j < after_keys.len() implies precedes(
                    #[trigger] after_keys[i],
                    #[trigger] after_keys[j],
                ) by {
                    if p < keys.len() {
                        assert(!precedes(keys[p as int], k));
                        assert(keys[p as int] != k);
                    }
                    lemma_insert_keeps_order(keys, p as int, k, i, j);
                }
            }
        }
        core::mem::swap(&mut self.entries, &mut entries);
        proof {
            if found {
                assert forall|x: Seq<char>| x != k && before.has(x) implies self.value_of(x)
                    == before.value_of(x) by {
                    let q = before.keys().index_of(x);
                    assert(q != p);
                }
            } else {
                lemma_inserted(before.keys(), before.values(), p as int, k, value);
                assert forall|x: Seq<char>| x != k implies self.has(x) == before.has(x) by {
                    lemma_inserted_has(before.keys(), p as int, k, x);
                }
                assert forall|x: Seq<char>| x != k && before.has(x) implies self.value_of(x)
                    == before.value_of(x) by {
                    lemma_inserted_has(before.keys(), p as int, k, x);
                    let q = before.keys().index_of(x);
                    let q2 = if q < p { q } else { q + 1 };
                    assert(self.keys()[q2] == x);
                    lemma_ascending_distinct(self.keys(), q2, self.keys().index_of(x));
                }
                assert(self.keys()[p as int] == k);
                lemma_ascending_distinct(self.keys(), p as int, self.keys().index_of(k));
            }
            assert(self.map() =~= before.map().insert(k, value));
        }
    }
}

impl<V: Clone> Clone for Dict<V> {
    /// A copy with the same keys, each value cloned.
    fn clone(&self) -> (d: Self)
        ensures
            d.keys() == self.keys(),
            d.values().len() == self.values().len(),
            forall|i: int| 0 <= i < self.values().len() ==> cloned(self.values()[i], #[trigger] d.values()[i]),
    {
        proof {
            use_type_invariant(self);
        }
        let mut entries: Vec<(String, V)> = Vec::new();
        let mut i: usize = 0;
        while i < self.entries.len()
            invariant
                i <= self.entries.len(),
                entries.len() == i,
                forall|j: int| 0 <= j < i ==> (#[trigger] entries[j]).0@ == self.entries[j].0@,
                forall|j: int| 0 <= j < i ==> cloned(self.entries[j].1, (#[trigger] entries[j]).1),
            decreases self.entries.len() - i,
        {
            let key = self.entries[i].0.clone();
            let value = self.entries[i].1.clone();
            entries.push((key, value));
            i += 1;
        }
        proof {
            assert(keys_of(entries@) =~= self.keys());
        }
        Dict { entries }
    }
}

impl<V: DeepView> Dict<V> {
    /// The deep views of the values, each at the position of its key.
    pub open spec fn deep_values(&self) -> Seq<V::V> {
        Seq::new(self.values().len(), |i: int| self.values()[i].deep_view())
    }
}

impl<V: DeepView> DeepView for Dict<V> {
    type V = Map<Seq<char>, V::V>;

    /// The map from each key to the deep view of its value.
    open spec fn deep_view(&self) -> Map<Seq<char>, V::V> {
        Map::new(|k: Seq<char>| self.has(k), |k: Seq<char>| self.value_of(k).deep_view())
    }
}

/// A type whose values can be compared and copied by what they hold.
pub trait Alike: DeepView + Sized {
    /// Whether the two values hold the same.
    fn alike(&self, other: &Self) -> (r: bool)
        ensures
            r == (self.deep_view() == other.deep_view()),
    ;

    /// A value that holds the same.
    fn copy(&self) -> (r: Self)
        ensures
            r.deep_view() == self.deep_view(),
    ;
}

impl Alike for String {
    fn alike(&self, other: &Self) -> (r: bool) {
        crate::text::same(self.as_str(), other.as_str())
    }

    fn copy(&self) -> (r: Self) {
        self.clone()
    }
}

impl Alike for Vec<String> {
    fn alike(&self, other: &Self) -> (r: bool) {
        crate::text::same_all(self, other)
    }

    fn copy(&self) -> (r: Self) {
        crate::text::copy_all(self)
    }
}

/// In a well-formed map the key at a position is mapped to the value at that position.
pub proof fn lemma_entry<V>(d: &Dict<V>, i: int)
    requires
        d.wf(),
        0 <= i < d.keys().len(),
    ensures
        d.has(d.keys()[i]),
        d.position(d.keys()[i]) == i,
        d.value_of(d.keys()[i]) == d.values()[i],
{
    assert(d.keys().contains(d.keys()[i]));
    lemma_ascending_distinct(d.keys(), i, d.keys().index_of(d.keys()[i]));
}

impl<V: Alike> Alike for Dict<V> {
    /// Whether the two maps hold the same keys with the same values.
    fn alike(&self, other: &Self) -> (r: bool) {
        let n = self.len();
        let m = other.len();
        let mut i: usize = 0;
        while i < n
            invariant
                i <= n,
                n == self.keys().len(),
                self.wf(),
                other.wf(),
                forall|j: int|
                    0 <= j < i ==> other.has(#[trigger] self.keys()[j]) && other.value_of(
                        self.keys()[j],
                    ).deep_view() == self.values()[j].deep_view(),
            decreases n - i,
        {
            let key = self.key_at(i);
            proof {
                lemma_entry(self, i as int);
            }
            match other.get(key.as_str()) {
                Some(v) => {
                    if !self.value_at(i).alike(v) {
                        assert(self.deep_view()[key@] != other.deep_view()[key@]);
                        return false;
                    }
                },
                None => {
                    assert(self.deep_view().dom().contains(key@));
                    assert(!other.deep_view().dom().contains(key@));
                    return false;
                },
            }
            i += 1;
        }
        let mut j: usize = 0;
        while j < m
            invariant
                j <= m,
                m == other.keys().len(),
                self.wf(),
                other.wf(),
                forall|k: int| 0 <= k < j ==> self.has(#[trigger] other.keys()[k]),
            decreases m - j,
        {
            let key = other.key_at(j);
            proof {
                lemma_entry(other, j as int);
            }
            if !self.contains_key(key.as_str()) {
                assert(other.deep_view().dom().contains(key@));
                assert(!self.deep_view().dom().contains(key@));
                return false;
            }
            j += 1;
        }
        proof {
            assert forall|k: Seq<char>| self.has(k) implies other.has(k) && self.value_of(
                k,
            ).deep_view() == other.value_of(k).deep_view() by {
                let p = self.keys().index_of(k);
                lemma_entry(self, p);
            }
            assert forall|k: Seq<char>| other.has(k) implies self.has(k) by {
                let p = other.keys().index_of(k);
                lemma_entry(other, p);
            }
            assert(self.deep_view() =~= other.deep_view());
        }
        true
    }

    /// A map with the same keys, each with a copy of its value.
    fn copy(&self) -> (r: Self) {
        proof {
            use_type_invariant(self);
        }
        let mut entries: Vec<(String, V)> = Vec::new();
        let mut i: usize = 0;
        while i < self.entries.len()
            invariant
                i <= self.entries.len(),
                entries.len() == i,
                forall|j: int| 0 <= j < i ==> (#[trigger] entries[j]).0@ == self.entries[j].0@,
                forall|j: int|
                    0 <= j < i ==> (#[trigger] entries[j]).1.deep_view()
                        == self.entries[j].1.deep_view(),
            decreases self.entries.len() - i,
        {
            let key = self.entries[i].0.clone();
            let value = self.entries[i].1.copy();
            entries.push((key, value));
            i += 1;
        }
        proof {
            assert(keys_of(entries@) =~= self.keys());
        }
        let r = Dict { entries };
        proof {
            assert forall|k: Seq<char>| r.has(k) implies r.value_of(k).deep_view()
                == self.value_of(k).deep_view() by {
                let p = r.keys().index_of(k);
                assert(r.values()[p] == r.entries@[p].1);
                assert(self.values()[p] == self.entries@[p].1);
            }
            assert(r.deep_view() =~= self.deep_view());
        }
        r
    }
}

/// Putting `k` where the keys before it precede it and the next does not keeps the
/// order, given that `k` is not yet among the keys.
proof fn lemma_insert_keeps_order(keys: Seq<Seq<char>>, p: int, k: Seq<char>, i: int, j: int)
    requires
        ascending(keys),
        0 <= p <= keys.len(),
        forall|a: int| 0 <= a < p ==> precedes(#[trigger] keys[a], k),
        p < keys.len() ==> !precedes(keys[p], k) && keys[p] != k,
        0 <= i < j < keys.len() + 1,
    ensures
        precedes(keys.insert(p, k)[i], keys.insert(p, k)[j]),
{
    if p < keys.len() {
        lemma_after(keys[p], k);
    }
    if i == p && j - 1 > p {
        lemma_precedes_transitive(k, keys[p], keys[j - 1]);
    }
}

/// Of two different names one precedes the other.
proof fn lemma_after(a: Seq<char>, b: Seq<char>)
    requires
        !precedes(a, b),
        a != b,
    ensures
        precedes(b, a),
{
    crate::text::lemma_precedes_total(a, b);
}

proof fn lemma_inserted<V>(keys: Seq<Seq<char>>, values: Seq<V>, p: int, k: Seq<char>, v: V)
    requires
        0 <= p <= keys.len(),
        keys.len() == values.len(),
    ensures
        keys.insert(p, k).contains(k),
        keys.insert(p, k)[p] == k,
        values.insert(p, v)[p] == v,
{
    assert(keys.insert(p, k)[p] == k);
}

proof fn lemma_inserted_has(keys: Seq<Seq<char>>, p: int, k: Seq<char>, x: Seq<char>)
    requires
        0 <= p <= keys.len(),
        x != k,
    ensures
        keys.insert(p, k).contains(x) == keys.contains(x),
{
    let after = keys.insert(p, k);
    if keys.contains(x) {
        let q = keys.index_of(x);
        let q2 = if q < p { q } else { q + 1 };
        assert(after[q2] == x);
    }
    if after.contains(x) {
        let q = after.index_of(x);
        assert(q != p);
        let q0 = if q < p { q } else { q - 1 };
        assert(keys[q0] == x);
    }
}

} // verus!
