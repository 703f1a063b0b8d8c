//! A finite map kept as a list of entries with pairwise different keys.
//!
//! The model of a `Table<K, V>` is the `Map` from the keys' views to the
//! values' views. An entry keeps its position while values change and
//! entries are added, so a caller can walk a table by index while it changes
//! the values in place.

use vstd::prelude::*;
use crate::bytes::{bytes_copy, bytes_eq};

verus! {

/// A value that can be copied: the copy has the view of what it was made from.
pub trait Dup: View + Sized {
    fn dup(&self) -> (r: Self)
        ensures
            r@ == self@,
    ;
}

/// A key of a table: two keys are the same when their views are.
pub trait Key: Dup {
    fn same(&self, other: &Self) -> (r: bool)
        ensures
            r == (self@ == other@),
    ;
}

impl<A: Dup, B: Dup> Dup for (A, B) {
    fn dup(&self) -> (r: Self) {
        (self.0.dup(), self.1.dup())
    }
}

/// The views of the elements of a list.
pub open spec fn views<T: View>(s: Seq<T>) -> Seq<T::V> {
    Seq::new(s.len(), |i: int| s[i]@)
}

/// A copy of a list, element by element.
pub fn dup_vec<T: Dup>(v: &Vec<T>) -> (r: Vec<T>)
    ensures
        views(r@) == views(v@),
{
    let mut r: Vec<T> = Vec::new();
    let mut i: usize = 0;
    while i < v.len()
        invariant
            i <= v.len(),
            r.len() == i,
            forall|j: int| 0 <= j < i ==> (#[trigger] r[j])@ == v[j]@,
        decreases v.len() - i,
    {
        r.push(v[i].dup());
        i += 1;
    }
    assert(views(r@) =~= views(v@));
    r
}

impl Dup for u32 {
    fn dup(&self) -> (r: Self) {
        *self
    }
}

impl Key for u32 {
    fn same(&self, other: &Self) -> (r: bool) {
        *self == *other
    }
}

impl Dup for Vec<u8> {
    fn dup(&self) -> (r: Self) {
        bytes_copy(self)
    }
}

impl Key for Vec<u8> {
    fn same(&self, other: &Self) -> (r: bool) {
        bytes_eq(self, other)
    }
}

/// A finite map from keys to values.
#[derive(Debug, PartialEq, Eq)]
pub struct Table<K: Key, V: View> {
    keys: Vec<K>,
    values: Vec<V>,
}

/// Whether the keys of a list are pairwise different.
pub open spec fn distinct<K: View>(keys: Seq<K>) -> bool {
    forall|i: int, j: int|
        0 <= i < keys.len() && 0 <= j < keys.len() && i != j ==> (#[trigger] keys[i])@
            != (#[trigger] keys[j])@
}

impl<K: Key, V: View> View for Table<K, V> {
    type V = Map<K::V, V::V>;

    closed spec fn view(&self) -> Map<K::V, V::V> {
        Map::new(
            |k: K::V| self.position(k) is Some,
            |k: K::V| self.value_at(self.position(k).unwrap()),
        )
    }
}

impl<K: Key, V: View> Table<K, V> {
    #[verifier::type_invariant]
    spec fn inv(self) -> bool {
        self.wf()
    }

    /// There is one value for each key, and no two keys are the same.
    pub closed spec fn wf(&self) -> bool {
        &&& self.keys.len() == self.values.len()
        &&& distinct(self.keys@)
    }

    /// The number of entries.
    pub closed spec fn count(&self) -> nat {
        self.keys.len() as nat
    }

    /// The key of the entry at position `i`.
    pub closed spec fn key_at(&self, i: int) -> K::V {
        self.keys[i]@
    }

    /// The value of the entry at position `i`.
    pub closed spec fn value_at(&self, i: int) -> V::V {
        self.values[i]@
    }

    /// A position that holds the key `k`, if there is one.
    pub closed spec fn position(&self, k: K::V) -> Option<int> {
        if exists|i: int| 0 <= i < self.keys.len() && self.keys[i]@ == k {
            Some(choose|i: int| 0 <= i < self.keys.len() && self.keys[i]@ == k)
        } else {
            None
        }
    }

    /// How positions and the model relate: each position holds one entry of
    /// the map, and each entry of the map stands at some position.
    pub proof fn lemma_positions(&self)
        requires
            self.wf(),
        ensures
            forall|i: int|
                0 <= i < self.count() ==> self@.contains_key(#[trigger] self.key_at(i))
                    && self@[self.key_at(i)] == self.value_at(i),
            forall|k: K::V| #[trigger]
                self@.contains_key(k) ==> exists|i: int|
                    0 <= i < self.count() && self.key_at(i) == k,
            forall|i: int, j: int|
                0 <= i < self.count() && 0 <= j < self.count() && i != j
                    ==> #[trigger] self.key_at(i) != #[trigger] self.key_at(j),
    {
        assert forall|i: int| 0 <= i < self.count() implies self@.contains_key(
            #[trigger] self.key_at(i),
        ) && self@[self.key_at(i)] == self.value_at(i) by {
            let k = self.keys[i]@;
            let p = self.position(k);
            assert(p is Some);
            assert(self.keys[p.unwrap()]@ == k);
            assert(p.unwrap() == i);
        }
        assert forall|k: K::V| #[trigger] self@.contains_key(k) implies exists|i: int|
            0 <= i < self.count() && self.key_at(i) == k by {
            let p = self.position(k).unwrap();
            assert(0 <= p < self.count() && self.key_at(p) == k);
        }
    }

    /// The table has as many entries as its model.
    pub proof fn lemma_count(&self)
        requires
            self.wf(),
        ensures
            self@.dom().finite(),
            self@.len() == self.count(),
    {
        let ks = views(self.keys@);
        assert forall|i: int, j: int| 0 <= i < ks.len() && 0 <= j < ks.len() && i != j implies ks[i]
            != ks[j] by {
            assert(self.keys@[i]@ != self.keys@[j]@);
        }
        ks.unique_seq_to_set();
        vstd::seq_lib::seq_to_set_is_finite(ks);
        self.lemma_positions();
        assert forall|k: K::V| self@.dom().contains(k) <==> ks.to_set().contains(k) by {
            if self@.dom().contains(k) {
                let i = choose|i: int| 0 <= i < self.count() && self.key_at(i) == k;
                assert(ks[i] == k);
            }
            if ks.to_set().contains(k) {
                let i = choose|i: int| 0 <= i < ks.len() && ks[i] == k;
                assert(self.key_at(i) == k);
            }
        }
        assert(self@.dom() =~= ks.to_set());
    }

    /// A table without entries.
    pub fn new() -> (r: Self)
        ensures
            r@ == Map::<K::V, V::V>::empty(),
            r.count() == 0,
            r.wf(),
    {
        let r = Table { keys: Vec::new(), values: Vec::new() };
        assert(r@ =~= Map::<K::V, V::V>::empty());
        r
    }

    /// The number of entries.
    pub fn len(&self) -> (n: usize)
        ensures
            n == self@.len(),
            n == self.count(),
            self.wf(),
    {
        proof {
            use_type_invariant(self);
            self.lemma_count();
        }
        self.keys.len()
    }

    /// Whether the table has no entry.
    pub fn is_empty(&self) -> (r: bool)
        ensures
            r == (self@ == Map::<K::V, V::V>::empty()),
            r == (self.count() == 0),
    {
        proof {
            use_type_invariant(self);
            self.lemma_positions();
            if self.keys.len() == 0 {
                assert(self@ =~= Map::<K::V, V::V>::empty());
            } else {
                assert(self@.contains_key(self.key_at(0)));
            }
        }
        self.keys.len() == 0
    }

    /// The position of `key`, if the table holds it.
    pub fn find(&self, key: &K) -> (r: Option<usize>)
        ensures
            self.wf(),
            match r {
                Some(i) => i < self.count() && self.key_at(i as int) == key@
                    && self@.contains_key(key@) && self@[key@] == self.value_at(i as int),
                None => !self@.contains_key(key@),
            },
    {
        proof {
            use_type_invariant(self);
            self.lemma_positions();
        }
        let mut i: usize = 0;
        while i < self.keys.len()
            invariant
                self.wf(),
                i <= self.keys.len(),
                forall|j: int| 0 <= j < i ==> self.keys[j]@ != key@,
            decreases self.keys.len() - i,
        {
            if self.keys[i].same(key) {
                proof {
                    self.lemma_positions();
                    assert(self.key_at(i as int) == key@);
                }
                return Some(i);
            }
            i += 1;
        }
        None
    }

    /// Whether the table holds `key`.
    pub fn contains_key(&self, key: &K) -> (r: bool)
        ensures
            r == self@.contains_key(key@),
    {
        self.find(key).is_some()
    }

    /// What `key` is bound to, if the table holds it.
    pub fn get(&self, key: &K) -> (r: Option<&V>)
        ensures
            match r {
                Some(v) => self@.contains_key(key@) && v@ == self@[key@],
                None => !self@.contains_key(key@),
            },
    {
        match self.find(key) {
            Some(i) => {
                proof {
                    use_type_invariant(self);
                }
                Some(&self.values[i])
            },
            None => None,
        }
    }

    /// The key at position `i`.
    pub fn key(&self, i: usize) -> (r: &K)
        requires
            i < self.count(),
        ensures
            r@ == self.key_at(i as int),
    {
        &self.keys[i]
    }

    /// The value at position `i`.
    pub fn value(&self, i: usize) -> (r: &V)
        requires
            i < self.count(),
        ensures
            r@ == self.value_at(i as int),
    {
        proof {
            use_type_invariant(self);
        }
        &self.values[i]
    }

    /// Whether `after` is `self` with the value at position `i` replaced.
    pub closed spec fn replaced(&self, after: Self, i: int) -> bool {
        &&& after.keys == self.keys
        &&& after.values@ == self.values@.update(i, after.values@[i])
    }

    proof fn lemma_replaced(&self, after: Self, i: int)
        requires
            self.wf(),
            0 <= i < self.count(),
            self.replaced(after, i),
        ensures
            after.wf(),
            after.count() == self.count(),
            forall|j: int| 0 <= j < self.count() ==> #[trigger] after.key_at(j) == self.key_at(j),
            forall|j: int|
                0 <= j < self.count() && j != i ==> #[trigger] after.value_at(j) == self.value_at(
                    j,
                ),
            after@ == self@.insert(self.key_at(i), after.value_at(i)),
    {
        assert(after.values@.len() == self.values@.len());
        self.lemma_positions();
        after.lemma_positions();
        assert(after@ =~= self@.insert(self.key_at(i), after.value_at(i)));
    }

    /// The value at position `i`, to be changed in place.
    pub fn value_mut(&mut self, i: usize) -> (r: &mut V)
        requires
            i < old(self).count(),
        ensures
            r@ == old(self).value_at(i as int),
            old(self).replaced(*final(self), i as int),
            final(self).value_at(i as int) == final(r)@,
            final(self).wf(),
            final(self).count() == old(self).count(),
            forall|j: int|
                0 <= j < old(self).count() ==> #[trigger] final(self).key_at(j) == old(
                    self,
                ).key_at(j),
            forall|j: int|
                0 <= j < old(self).count() && j != i ==> #[trigger] final(self).value_at(j)
                    == old(self).value_at(j),
            final(self)@ == old(self)@.insert(old(self).key_at(i as int), final(r)@),
    {
        proof {
            use_type_invariant(&*self);
            let before = *self;
            assert forall|after: Self| #[trigger] before.replaced(after, i as int) implies {
                &&& after.wf()
                &&& after.count() == before.count()
                &&& (forall|j: int|
                    0 <= j < before.count() ==> #[trigger] after.key_at(j) == before.key_at(j))
                &&& (forall|j: int|
                    0 <= j < before.count() && j != i ==> #[trigger] after.value_at(j)
                        == before.value_at(j))
                &&& after@ == before@.insert(before.key_at(i as int), after.value_at(i as int))
            } by {
                before.lemma_replaced(after, i as int);
            }
        }
        &mut self.values[i]
    }

    /// Adds an entry for a key that the table does not hold, behind the others.
    pub fn push_fresh(&mut self, key: K, value: V)
        requires
            !old(self)@.contains_key(key@),
        ensures
            final(self)@ == old(self)@.insert(key@, value@),
            final(self).wf(),
            final(self).count() == old(self).count() + 1,
            final(self).key_at(old(self).count() as int) == key@,
            final(self).value_at(old(self).count() as int) == value@,
            forall|j: int|
                0 <= j < old(self).count() ==> #[trigger] final(self).key_at(j) == old(
                    self,
                ).key_at(j),
            forall|j: int|
                0 <= j < old(self).count() ==> #[trigger] final(self).value_at(j) == old(
                    self,
                ).value_at(j),
    {
        proof {
            use_type_invariant(&*self);
            self.lemma_positions();
        }
        let ghost before = *self;
        let mut taken = Table { keys: Vec::new(), values: Vec::new() };
        std::mem::swap(&mut taken, self);
        let Table { mut keys, mut values } = taken;
        keys.push(key);
        values.push(value);
        proof {
            assert forall|a: int, b: int|
                0 <= a < keys.len() && 0 <= b < keys.len() && a != b implies (
            #[trigger] keys@[a])@ != (#[trigger] keys@[b])@ by {
                if a < before.count() {
                    assert(keys@[a]@ == before.key_at(a));
                }
                if b < before.count() {
                    assert(keys@[b]@ == before.key_at(b));
                }
            }
        }
        *self = Table { keys, values };
        proof {
            self.lemma_positions();
            assert forall|j: int| 0 <= j < before.count() implies self.key_at(j)
                == before.key_at(j) && self.value_at(j) == before.value_at(j) by {}
            assert(self.key_at(before.count() as int) == key@);
            assert(self@ =~= before@.insert(key@, value@));
        }
    }

    /// Binds `key` to `value`, in place of what it was bound to.
    pub fn insert(&mut self, key: K, value: V)
        ensures
            final(self)@ == old(self)@.insert(key@, value@),
            final(self).wf(),
    {
        proof {
            use_type_invariant(&*self);
            self.lemma_positions();
        }
        let ghost before = *self;
        match self.find(&key) {
            Some(i) => {
                self.values[i] = value;
                proof {
                    self.lemma_positions();
                    assert(self@ =~= before@.insert(key@, value@));
                }
            },
            None => {
                self.push_fresh(key, value);
            },
        }
    }

    /// Removes `key` and hands back what it was bound to.
    pub fn remove(&mut self, key: &K) -> (r: Option<V>)
        ensures
            final(self)@ == old(self)@.remove(key@),
            final(self).wf(),
            match r {
                Some(v) => old(self)@.contains_key(key@) && v@ == old(self)@[key@],
                None => !old(self)@.contains_key(key@),
            },
    {
        proof {
            use_type_invariant(&*self);
            self.lemma_positions();
        }
        let ghost before = *self;
        match self.find(key) {
            Some(i) => {
                let mut taken = Table { keys: Vec::new(), values: Vec::new() };
                std::mem::swap(&mut taken, self);
                let Table { mut keys, mut values } = taken;
                keys.remove(i);
                let v = values.remove(i);
                proof {
                    assert forall|a: int, b: int|
                        0 <= a < keys.len() && 0 <= b < keys.len() && a != b implies (
                    #[trigger] keys@[a])@ != (#[trigger] keys@[b])@ by {
                        let a0 = if a < i { a } else { a + 1 };
                        let b0 = if b < i { b } else { b + 1 };
                        assert(keys@[a]@ == before.key_at(a0));
                        assert(keys@[b]@ == before.key_at(b0));
                    }
                }
                *self = Table { keys, values };
                proof {
                    self.lemma_positions();
                    assert forall|j: int| 0 <= j < self.count() implies self.key_at(j) == (if j
                        < i {
                        before.key_at(j)
                    } else {
                        before.key_at(j + 1)
                    }) && self.value_at(j) == (if j < i {
                        before.value_at(j)
                    } else {
                        before.value_at(j + 1)
                    }) by {}
                    assert forall|k: K::V| k != key@ && before@.contains_key(k) implies self@.contains_key(k)
                        && self@[k] == before@[k] by {
                        let p = choose|p: int| 0 <= p < before.count() && before.key_at(p) == k;
                        let q = if p < i { p } else { p - 1 };
                        assert(self.key_at(q) == k);
                    }
                    assert(self@ =~= before@.remove(key@));
                }
                Some(v)
            },
            None => {
                assert(self@ =~= old(self)@.remove(key@));
                None
            },
        }
    }
}

impl<K: Key, V: Dup> Dup for Table<K, V> {
    fn dup(&self) -> (r: Self) {
        proof {
            use_type_invariant(self);
        }
        let mut keys: Vec<K> = Vec::new();
        let mut values: Vec<V> = Vec::new();
        let mut i: usize = 0;
        while i < self.keys.len()
            invariant
                self.wf(),
                i <= self.keys.len(),
                keys.len() == i,
                values.len() == i,
                forall|j: int| 0 <= j < i ==> (#[trigger] keys[j])@ == self.keys[j]@,
                forall|j: int| 0 <= j < i ==> (#[trigger] values[j])@ == self.values[j]@,
            decreases self.keys.len() - i,
        {
            keys.push(self.keys[i].dup());
            values.push(self.values[i].dup());
            i += 1;
        }
        let r = Table { keys, values };
        proof {
            self.lemma_positions();
            r.lemma_positions();
            assert forall|j: int| 0 <= j < r.count() implies r.key_at(j) == self.key_at(j)
                && r.value_at(j) == self.value_at(j) by {}
            assert(r@ =~= self@);
        }
        r
    }
}

impl<K: Key, V: Dup> Clone for Table<K, V> {
    fn clone(&self) -> (r: Self)
        ensures
            r@ == self@,
    {
        self.dup()
    }
}

} // verus!
