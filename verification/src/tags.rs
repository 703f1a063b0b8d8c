//! Sets of tag names.
//!
//! A set keeps its names in the order of dictionaries, each of them once, so
//! that two sets with the same names are the same list of names.

use vstd::prelude::*;
use crate::bytes::bytes_copy;
use crate::table::{views, Dup};

verus! {

/// Whether `a` and `b` have the same first `k` bytes.
pub open spec fn agree(a: Seq<u8>, b: Seq<u8>, k: int) -> bool {
    &&& 0 <= k <= a.len()
    &&& k <= b.len()
    &&& forall|j: int| 0 <= j < k ==> a[j] == b[j]
}

/// Whether `a` comes before `b` for what stands at position `k`: up to `k`
/// they are the same, and there `a` ends or has the smaller byte.
pub open spec fn before_at(a: Seq<u8>, b: Seq<u8>, k: int) -> bool {
    &&& agree(a, b, k)
    &&& k < b.len()
    &&& k == a.len() || (k < a.len() && a[k] < b[k])
}

/// Whether `a` comes before `b` in the order of dictionaries.
pub open spec fn before(a: Seq<u8>, b: Seq<u8>) -> bool {
    exists|k: int| before_at(a, b, k)
}

/// Nothing comes before itself.
pub proof fn lemma_before_irreflexive(a: Seq<u8>)
    ensures
        !before(a, a),
{
}

/// What comes before something that comes before `c` comes before `c`.
pub proof fn lemma_before_transitive(a: Seq<u8>, b: Seq<u8>, c: Seq<u8>)
    requires
        before(a, b),
        before(b, c),
    ensures
        before(a, c),
{
    let k1 = choose|k: int| before_at(a, b, k);
    let k2 = choose|k: int| before_at(b, c, k);
    let k = if k1 <= k2 {
        k1
    } else {
        k2
    };
    assert(agree(a, c, k));
    assert(before_at(a, c, k));
}

/// Whether the names of a list stand in the order of dictionaries, each
/// before the ones behind it.
pub open spec fn ordered(s: Seq<Seq<u8>>) -> bool {
    forall|i: int, j: int| 0 <= i < j < s.len() ==> before(#[trigger] s[i], #[trigger] s[j])
}

/// Two ordered lists with the same names are the same list.
pub proof fn lemma_ordered_lists(s: Seq<Seq<u8>>, t: Seq<Seq<u8>>)
    requires
        ordered(s),
        ordered(t),
        forall|x: Seq<u8>| s.contains(x) <==> t.contains(x),
    ensures
        s == t,
    decreases s.len(),
{
    if s.len() == 0 {
        if t.len() > 0 {
            assert(t.contains(t[0]));
        }
        assert(s =~= t);
    } else {
        assert(s.contains(s[0]));
        assert(t.contains(s[0]));
        let j = choose|j: int| 0 <= j < t.len() && t[j] == s[0];
        assert(t.contains(t[0]));
        let i = choose|i: int| 0 <= i < s.len() && s[i] == t[0];
        if j > 0 {
            assert(before(t[0], t[j]));
            if i > 0 {
                assert(before(s[0], s[i]));
                lemma_before_transitive(t[0], s[0], t[0]);
            }
            lemma_before_irreflexive(t[0]);
        }
        assert(s[0] == t[0]);
        let s1 = s.skip(1);
        let t1 = t.skip(1);
        assert forall|a: int, b: int| 0 <= a < b < s1.len() implies before(
            #[trigger] s1[a],
            #[trigger] s1[b],
        ) by {
            assert(before(s[a + 1], s[b + 1]));
        }
        assert forall|a: int, b: int| 0 <= a < b < t1.len() implies before(
            #[trigger] t1[a],
            #[trigger] t1[b],
        ) by {
            assert(before(t[a + 1], t[b + 1]));
        }
        assert forall|x: Seq<u8>| s1.contains(x) <==> t1.contains(x) by {
            lemma_before_irreflexive(s[0]);
            if s1.contains(x) {
                let a = choose|a: int| 0 <= a < s1.len() && s1[a] == x;
                assert(s[a + 1] == x);
                assert(before(s[0], s[a + 1]));
                assert(s.contains(x));
                let b = choose|b: int| 0 <= b < t.len() && t[b] == x;
                assert(b != 0);
                assert(t1[b - 1] == x);
            }
            if t1.contains(x) {
                let b = choose|b: int| 0 <= b < t1.len() && t1[b] == x;
                assert(t[b + 1] == x);
                assert(before(t[0], t[b + 1]));
                assert(t.contains(x));
                let a = choose|a: int| 0 <= a < s.len() && s[a] == x;
                assert(a != 0);
                assert(s1[a - 1] == x);
            }
        }
        lemma_ordered_lists(s1, t1);
        assert(s =~= seq![s[0]] + s1);
        assert(t =~= seq![t[0]] + t1);
    }
}

/// How two byte strings stand to each other in the order of dictionaries.
#[derive(Debug, Clone, Copy, PartialEq, Eq)]
pub enum Standing {
    Before,
    Same,
    Behind,
}

/// How `a` stands to `b` in the order of dictionaries.
pub fn standing(a: &Vec<u8>, b: &Vec<u8>) -> (r: Standing)
    ensures
        match r {
            Standing::Before => before(a@, b@),
            Standing::Same => a@ == b@,
            Standing::Behind => before(b@, a@),
        },
{
    let mut k: usize = 0;
    while k < a.len() && k < b.len()
        invariant
            agree(a@, b@, k as int),
        decreases a.len() - k,
    {
        if a[k] < b[k] {
            assert(before_at(a@, b@, k as int));
            return Standing::Before;
        }
        if b[k] < a[k] {
            assert(agree(b@, a@, k as int));
            assert(before_at(b@, a@, k as int));
            return Standing::Behind;
        }
        k += 1;
    }
    if k < b.len() {
        assert(before_at(a@, b@, k as int));
        Standing::Before
    } else if k < a.len() {
        assert(agree(b@, a@, k as int));
        assert(before_at(b@, a@, k as int));
        Standing::Behind
    } else {
        assert(a@ =~= b@);
        Standing::Same
    }
}

/// A set of tag names.
#[derive(Debug, PartialEq, Eq)]
pub struct Tags {
    names: Vec<Vec<u8>>,
}

impl View for Tags {
    type V = Set<Seq<u8>>;

    closed spec fn view(&self) -> Set<Seq<u8>> {
        Set::new(|t: Seq<u8>| views(self.names@).contains(t))
    }
}

impl Tags {
    #[verifier::type_invariant]
    spec fn inv(self) -> bool {
        self.wf()
    }

    /// The names stand in the order of dictionaries, each of them once.
    pub closed spec fn wf(&self) -> bool {
        ordered(views(self.names@))
    }

    /// The number of names.
    pub closed spec fn count(&self) -> nat {
        self.names.len() as nat
    }

    /// The name at position `i`.
    pub closed spec fn name_at(&self, i: int) -> Seq<u8> {
        self.names[i]@
    }

    /// Each position holds a name of the set, each name of the set stands at
    /// a position, and the positions follow the order of dictionaries.
    pub proof fn lemma_names(&self)
        requires
            self.wf(),
        ensures
            forall|i: int| 0 <= i < self.count() ==> self@.contains(#[trigger] self.name_at(i)),
            forall|t: Seq<u8>| #[trigger]
                self@.contains(t) ==> exists|i: int| 0 <= i < self.count() && self.name_at(i) == t,
            forall|i: int, j: int|
                0 <= i < j < self.count() ==> before(
                    #[trigger] self.name_at(i),
                    #[trigger] self.name_at(j),
                ),
    {
        let s = views(self.names@);
        assert forall|i: int| 0 <= i < self.count() implies self@.contains(
            #[trigger] self.name_at(i),
        ) by {
            assert(s[i] == self.name_at(i));
        }
        assert forall|t: Seq<u8>| #[trigger] self@.contains(t) implies exists|i: int|
            0 <= i < self.count() && self.name_at(i) == t by {
            let i = choose|i: int| 0 <= i < s.len() && s[i] == t;
            assert(self.name_at(i) == t);
        }
        assert forall|i: int, j: int| 0 <= i < j < self.count() implies before(
            #[trigger] self.name_at(i),
            #[trigger] self.name_at(j),
        ) by {
            assert(before(s[i], s[j]));
        }
    }

    /// The set has as many names as positions.
    pub proof fn lemma_count(&self)
        requires
            self.wf(),
        ensures
            self@.finite(),
            self@.len() == self.count(),
    {
        let s = views(self.names@);
        assert forall|i: int, j: int| 0 <= i < s.len() && 0 <= j < s.len() && i != j implies s[i]
            != s[j] by {
            lemma_before_irreflexive(s[i]);
            if i < j {
                assert(before(s[i], s[j]));
            } else {
                assert(before(s[j], s[i]));
            }
        }
        s.unique_seq_to_set();
        vstd::seq_lib::seq_to_set_is_finite(s);
        assert(self@ =~= s.to_set());
    }

    /// Two sets with the same names hold them at the same positions.
    pub proof fn lemma_same_names(&self, other: &Tags)
        requires
            self.wf(),
            other.wf(),
            self@ == other@,
        ensures
            self.count() == other.count(),
            forall|i: int| 0 <= i < self.count() ==> self.name_at(i) == other.name_at(i),
    {
        let s = views(self.names@);
        let t = views(other.names@);
        assert forall|x: Seq<u8>| s.contains(x) <==> t.contains(x) by {
            assert(self@.contains(x) == s.contains(x));
            assert(other@.contains(x) == t.contains(x));
        }
        lemma_ordered_lists(s, t);
        assert forall|i: int| 0 <= i < self.count() implies self.name_at(i) == other.name_at(
            i,
        ) by {
            assert(s[i] == t[i]);
        }
    }

    /// A set without names.
    pub fn new() -> (r: Self)
        ensures
            r@ == Set::<Seq<u8>>::empty(),
    {
        let r = Tags { names: Vec::new() };
        assert(r@ =~= Set::<Seq<u8>>::empty());
        r
    }

    /// Adds a name to the set.
    pub fn insert(&mut self, tag: Vec<u8>)
        ensures
            final(self)@ == old(self)@.insert(tag@),
    {
        proof {
            use_type_invariant(&*self);
        }
        let ghost before_names = views(self.names@);
        let mut names: Vec<Vec<u8>> = Vec::new();
        std::mem::swap(&mut names, &mut self.names);
        let mut p: usize = 0;
        let mut found = false;
        while p < names.len()
            invariant_except_break
                !found,
            invariant
                p <= names.len(),
                views(names@) == before_names,
                ordered(before_names),
                forall|i: int| 0 <= i < p ==> before(#[trigger] before_names[i], tag@),
            ensures
                p <= names.len(),
                views(names@) == before_names,
                ordered(before_names),
                forall|i: int| 0 <= i < p ==> before(#[trigger] before_names[i], tag@),
                found ==> p < names.len() && before_names[p as int] == tag@,
                !found && p < names.len() ==> before(tag@, before_names[p as int]),
            decreases names.len() - p,
        {
            match standing(&names[p], &tag) {
                Standing::Before => {
                    assert(before_names[p as int] == names[p as int]@);
                    p += 1;
                },
                Standing::Same => {
                    assert(before_names[p as int] == names[p as int]@);
                    found = true;
                    break;
                },
                Standing::Behind => {
                    assert(before_names[p as int] == names[p as int]@);
                    break;
                },
            }
        }
        if !found {
            names.insert(p, tag);
            proof {
                let after = views(names@);
                assert(after =~= before_names.insert(p as int, tag@));
                assert forall|i: int, j: int| 0 <= i < j < after.len() implies before(
                    #[trigger] after[i],
                    #[trigger] after[j],
                ) by {
                    if j < p {
                        assert(before(before_names[i], before_names[j]));
                    } else if j == p {
                        assert(before(before_names[i], tag@));
                    } else if i < p {
                        assert(before(before_names[i], before_names[j - 1]));
                    } else if i == p {
                        if j - 1 > p {
                            assert(before(before_names[p as int], before_names[j - 1]));
                            lemma_before_transitive(
                                tag@,
                                before_names[p as int],
                                before_names[j - 1],
                            );
                        }
                    } else {
                        assert(before(before_names[i - 1], before_names[j - 1]));
                    }
                }
                assert forall|t: Seq<u8>| after.contains(t) <==> (before_names.contains(t) || t
                    == tag@) by {
                    if after.contains(t) {
                        let i = choose|i: int| 0 <= i < after.len() && after[i] == t;
                        if i < p {
                            assert(before_names[i] == t);
                        } else if i > p {
                            assert(before_names[i - 1] == t);
                        }
                    }
                    if before_names.contains(t) {
                        let i = choose|i: int| 0 <= i < before_names.len() && before_names[i] == t;
                        if i < p {
                            assert(after[i] == t);
                        } else {
                            assert(after[i + 1] == t);
                        }
                    }
                    if t == tag@ {
                        assert(after[p as int] == t);
                    }
                }
            }
        } else {
            proof {
                assert(before_names.contains(tag@));
            }
        }
        self.names = names;
        assert(self@ =~= old(self)@.insert(tag@));
    }

    /// Whether the set holds `tag`.
    pub fn contains(&self, tag: &Vec<u8>) -> (r: bool)
        ensures
            r == self@.contains(tag@),
    {
        proof {
            use_type_invariant(self);
        }
        let ghost s = views(self.names@);
        let mut i: usize = 0;
        while i < self.names.len()
            invariant
                i <= self.names.len(),
                s == views(self.names@),
                ordered(s),
                forall|j: int| 0 <= j < i ==> before(#[trigger] s[j], tag@),
            decreases self.names.len() - i,
        {
            match standing(&self.names[i], tag) {
                Standing::Before => {
                    assert(s[i as int] == self.names[i as int]@);
                },
                Standing::Same => {
                    assert(s[i as int] == tag@);
                    return true;
                },
                Standing::Behind => {
                    proof {
                        assert(s[i as int] == self.names[i as int]@);
                        if s.contains(tag@) {
                            let j = choose|j: int| 0 <= j < s.len() && s[j] == tag@;
                            lemma_before_irreflexive(tag@);
                            if j > i {
                                assert(before(s[i as int], s[j]));
                                lemma_before_transitive(tag@, s[i as int], tag@);
                            }
                        }
                    }
                    return false;
                },
            }
            i += 1;
        }
        proof {
            if s.contains(tag@) {
                let j = choose|j: int| 0 <= j < s.len() && s[j] == tag@;
                lemma_before_irreflexive(tag@);
            }
        }
        false
    }

    /// Whether the set holds no name.
    pub fn is_empty(&self) -> (r: bool)
        ensures
            r == (self@ == Set::<Seq<u8>>::empty()),
    {
        let r = self.names.len() == 0;
        proof {
            let s = views(self.names@);
            if r {
                assert(self@ =~= Set::<Seq<u8>>::empty());
            } else {
                assert(s[0] == self.names[0]@);
                assert(s.contains(s[0]));
                assert(self@.contains(s[0]));
            }
        }
        r
    }

    /// The number of names.
    pub fn len(&self) -> (n: usize)
        ensures
            n == self@.len(),
            n == self.count(),
            self.wf(),
    {
        proof {
            use_type_invariant(self);
            self.lemma_count();
        }
        self.names.len()
    }

    /// The name at position `i`.
    pub fn name(&self, i: usize) -> (r: &Vec<u8>)
        requires
            i < self.count(),
        ensures
            r@ == self.name_at(i as int),
    {
        &self.names[i]
    }

    /// Whether two sets hold the same names.
    pub fn same(&self, other: &Tags) -> (r: bool)
        ensures
            r == (self@ == other@),
    {
        proof {
            use_type_invariant(self);
            use_type_invariant(other);
            self.lemma_names();
            other.lemma_names();
            if self@ == other@ {
                self.lemma_same_names(other);
            }
        }
        if self.names.len() != other.names.len() {
            return false;
        }
        let mut i: usize = 0;
        while i < self.names.len()
            invariant
                self.wf(),
                other.wf(),
                self.names.len() == other.names.len(),
                i <= self.names.len(),
                forall|j: int| 0 <= j < i ==> self.name_at(j) == other.name_at(j),
                self@ == other@ ==> forall|j: int|
                    0 <= j < self.count() ==> self.name_at(j) == other.name_at(j),
            decreases self.names.len() - i,
        {
            match standing(&self.names[i], &other.names[i]) {
                Standing::Same => {},
                _ => {
                    proof {
                        lemma_before_irreflexive(self.name_at(i as int));
                        assert(self.name_at(i as int) != other.name_at(i as int));
                    }
                    return false;
                },
            }
            i += 1;
        }
        proof {
            self.lemma_names();
            other.lemma_names();
            assert forall|t: Seq<u8>| self@.contains(t) <==> other@.contains(t) by {
                if self@.contains(t) {
                    let j = choose|j: int| 0 <= j < self.count() && self.name_at(j) == t;
                    assert(other.name_at(j) == t);
                }
                if other@.contains(t) {
                    let j = choose|j: int| 0 <= j < other.count() && other.name_at(j) == t;
                    assert(self.name_at(j) == t);
                }
            }
            assert(self@ =~= other@);
        }
        true
    }
}

impl Dup for Tags {
    fn dup(&self) -> (r: Self) {
        proof {
            use_type_invariant(self);
        }
        let mut names: Vec<Vec<u8>> = Vec::new();
        let mut i: usize = 0;
        while i < self.names.len()
            invariant
                i <= self.names.len(),
                names.len() == i,
                forall|j: int| 0 <= j < i ==> (#[trigger] names[j])@ == self.names[j]@,
            decreases self.names.len() - i,
        {
            names.push(bytes_copy(&self.names[i]));
            i += 1;
        }
        assert(views(names@) =~= views(self.names@));
        let r = Tags { names };
        assert(r@ =~= self@);
        r
    }
}

impl Clone for Tags {
    fn clone(&self) -> (r: Self)
        ensures
            r@ == self@,
    {
        self.dup()
    }
}

} // verus!
