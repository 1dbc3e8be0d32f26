//! Name-keyed tables: an association map and a set, both keyed by strings.
//!
//! A `NameMap` is an append-only log of `(name, value)` bindings; the latest
//! binding of a name is the one in force.
use vstd::prelude::*;
use crate::text::str_eq;

verus! {

/// Values that can be copied exactly, up to their deep view.
pub trait Duplicate: Sized + DeepView {
    fn duplicate(&self) -> (r: Self)
        ensures
            r.deep_view() == self.deep_view(),
    ;
}

impl Duplicate for String {
    fn duplicate(&self) -> (r: Self) {
        self.clone()
    }
}

impl Duplicate for bool {
    fn duplicate(&self) -> (r: Self) {
        *self
    }
}

impl Duplicate for i64 {
    fn duplicate(&self) -> (r: Self) {
        *self
    }
}

impl Duplicate for usize {
    fn duplicate(&self) -> (r: Self) {
        *self
    }
}

impl<T: Duplicate> Duplicate for Vec<T> {
    fn duplicate(&self) -> (r: Self) {
        let mut out: Vec<T> = Vec::new();
        let mut i: usize = 0;
        while i < self.len()
            invariant
                i <= self@.len(),
                out@.len() == i,
                forall|j: int| 0 <= j < i ==> #[trigger] out@[j].deep_view() == self@[j].deep_view(),
            decreases self@.len() - i,
        {
            out.push(self[i].duplicate());
            i = i + 1;
        }
        assert(out.deep_view() =~= self.deep_view());
        out
    }
}

impl<A: Duplicate, B: Duplicate> Duplicate for (A, B) {
    fn duplicate(&self) -> (r: Self) {
        (self.0.duplicate(), self.1.duplicate())
    }
}

impl<A: Duplicate, B: Duplicate, C: Duplicate> Duplicate for (A, B, C) {
    fn duplicate(&self) -> (r: Self) {
        (self.0.duplicate(), self.1.duplicate(), self.2.duplicate())
    }
}

impl<T: Duplicate> Duplicate for Option<T> {
    fn duplicate(&self) -> (r: Self) {
        match self {
            Some(x) => Some(x.duplicate()),
            None => None,
        }
    }
}

/// Index of the latest binding of `k` in `s`, or -1.
pub open spec fn latest<V>(s: Seq<(String, V)>, k: Seq<char>) -> int
    decreases s.len(),
{
    if s.len() == 0 {
        -1
    } else if s.last().0@ == k {
        s.len() - 1
    } else {
        latest(s.drop_last(), k)
    }
}

pub proof fn lemma_latest_bounds<V>(s: Seq<(String, V)>, k: Seq<char>)
    ensures
        -1 <= latest(s, k) < s.len(),
        latest(s, k) >= 0 ==> s[latest(s, k)].0@ == k,
    decreases s.len(),
{
    if s.len() > 0 && s.last().0@ != k {
        lemma_latest_bounds(s.drop_last(), k);
    }
}

/// A map from names to values.
#[derive(Clone, Debug)]
pub struct NameMap<V> {
    pub entries: Vec<(String, V)>,
}

impl<V> View for NameMap<V> {
    type V = Map<Seq<char>, V>;

    open spec fn view(&self) -> Map<Seq<char>, V> {
        Map::new(
            |k: Seq<char>| latest(self.entries@, k) >= 0,
            |k: Seq<char>| self.entries@[latest(self.entries@, k)].1,
        )
    }
}

impl<V> NameMap<V> {
    /// The empty map.
    pub fn new() -> (r: Self)
        ensures
            r@ == Map::<Seq<char>, V>::empty(),
            r.entries@.len() == 0,
    {
        let r = NameMap { entries: Vec::new() };
        assert(r@ =~= Map::<Seq<char>, V>::empty());
        r
    }

    /// Binds `k` to `v`, replacing any earlier binding.
    pub fn insert(&mut self, k: String, v: V)
        ensures
            final(self)@ == old(self)@.insert(k@, v),
    {
        let ghost old_s = self.entries@;
        let ghost key = k@;
        self.entries.push((k, v));
        proof {
            let s = self.entries@;
            assert(s.drop_last() =~= old_s);
            assert(latest(s, key) == old_s.len());
            assert forall|q: Seq<char>| q != key implies latest(s, q) == latest(old_s, q) by {}
            assert forall|q: Seq<char>| #[trigger] self@.contains_key(q) == old(self)@.insert(key, v).contains_key(q) by {}
            assert forall|q: Seq<char>| self@.contains_key(q) implies #[trigger] self@[q] == old(self)@.insert(key, v)[q] by {
                if q != key {
                    lemma_latest_bounds(old_s, q);
                    assert(s[latest(s, q)] == old_s[latest(old_s, q)]);
                }
            }
        }
        assert(self@ =~= old(self)@.insert(key, v));
    }

    /// Position of the latest binding of `k`.
    fn find(&self, k: &str) -> (r: Option<usize>)
        ensures
            match r {
                Some(i) => i < self.entries@.len() && latest(self.entries@, k@) == i as int,
                None => latest(self.entries@, k@) == -1,
            },
    {
        let mut i = self.entries.len();
        assert(self.entries@.subrange(0, i as int) =~= self.entries@);
        while i > 0
            invariant
                i <= self.entries@.len(),
                latest(self.entries@, k@) == latest(self.entries@.subrange(0, i as int), k@),
            decreases i,
        {
            let ghost pre = self.entries@.subrange(0, i as int);
            assert(pre.drop_last() =~= self.entries@.subrange(0, i - 1));
            if str_eq(self.entries[i - 1].0.as_str(), k) {
                return Some(i - 1);
            }
            i = i - 1;
        }
        None
    }

    /// The value bound to `k`, if any.
    pub fn get(&self, k: &str) -> (r: Option<&V>)
        ensures
            match r {
                Some(v) => self@.contains_key(k@) && *v == self@[k@],
                None => !self@.contains_key(k@),
            },
    {
        match self.find(k) {
            Some(i) => Some(&self.entries[i].1),
            None => None,
        }
    }

    /// True when `k` is bound.
    pub fn contains_key(&self, k: &str) -> (r: bool)
        ensures
            r == self@.contains_key(k@),
    {
        self.find(k).is_some()
    }

    /// Replaces the value bound to `k`, when there is one, and returns the
    /// value it replaced; an unbound `k` leaves the map unchanged.
    pub fn replace_value(&mut self, k: &str, v: V) -> (r: Option<V>)
        ensures
            old(self)@.contains_key(k@) ==> final(self)@ == old(self)@.insert(k@, v) && r == Some(old(self)@[k@]),
            !old(self)@.contains_key(k@) ==> final(self)@ == old(self)@ && r is None,
            final(self).entries@.len() == old(self).entries@.len(),
    {
        match self.find(k) {
            Some(i) => {
                let ghost old_s = self.entries@;
                let mut tmp = v;
                std::mem::swap(&mut self.entries[i].1, &mut tmp);
                proof {
                    let s = self.entries@;
                    assert forall|j: int| 0 <= j < s.len() implies (#[trigger] s[j]).0@ == old_s[j].0@ by {}
                    assert forall|q: Seq<char>| #[trigger] latest(s, q) == latest(old_s, q) by {
                        lemma_latest_same_keys(s, old_s, q);
                    }
                    assert forall|q: Seq<char>| #[trigger] self@.contains_key(q) == old(self)@.insert(k@, v).contains_key(q) by {}
                    assert(s[i as int].1 == v);
                    assert forall|j: int| 0 <= j < s.len() && j != i implies #[trigger] s[j] == old_s[j] by {}
                    assert forall|q: Seq<char>| self@.contains_key(q) implies #[trigger] self@[q] == old(self)@.insert(k@, v)[q] by {
                        lemma_latest_bounds(old_s, q);
                        if q != k@ {
                            lemma_latest_bounds(old_s, k@);
                            assert(latest(old_s, q) != i);
                        }
                    }
                    assert(self@ =~= old(self)@.insert(k@, v));
                }
                Some(tmp)
            },
            None => None,
        }
    }

    /// A bound key means a nonempty log.
    pub proof fn lemma_bound_nonempty(&self, k: Seq<char>)
        requires
            self@.contains_key(k),
        ensures
            self.entries@.len() > 0,
    {
        lemma_latest_bounds(self.entries@, k);
    }

    /// Number of recorded bindings (an upper bound on the number of keys).
    pub fn raw_len(&self) -> (r: usize)
        ensures
            r == self.entries@.len(),
    {
        self.entries.len()
    }
}

impl<V: DeepView> DeepView for NameMap<V> {
    type V = Map<Seq<char>, V::V>;

    open spec fn deep_view(&self) -> Map<Seq<char>, V::V> {
        Map::new(
            |k: Seq<char>| latest(self.entries@, k) >= 0,
            |k: Seq<char>| self.entries@[latest(self.entries@, k)].1.deep_view(),
        )
    }
}

/// Two binding logs with the same keys position by position have their
/// latest bindings at the same positions.
pub proof fn lemma_latest_same_keys<V>(a: Seq<(String, V)>, b: Seq<(String, V)>, k: Seq<char>)
    requires
        a.len() == b.len(),
        forall|j: int| 0 <= j < a.len() ==> (#[trigger] a[j]).0@ == b[j].0@,
    ensures
        latest(a, k) == latest(b, k),
    decreases a.len(),
{
    if a.len() > 0 {
        assert(a.last().0@ == b.last().0@);
        assert forall|j: int| 0 <= j < a.drop_last().len() implies (#[trigger] a.drop_last()[j]).0@ == b.drop_last()[j].0@ by {
            assert(a.drop_last()[j] == a[j]);
            assert(b.drop_last()[j] == b[j]);
        }
        lemma_latest_same_keys(a.drop_last(), b.drop_last(), k);
    }
}

impl<V: Duplicate> NameMap<V> {
    /// A copy of the value bound to `k`, if any.
    pub fn get_copy(&self, k: &str) -> (r: Option<V>)
        ensures
            match r {
                Some(v) => self@.contains_key(k@) && v.deep_view() == self@[k@].deep_view(),
                None => !self@.contains_key(k@),
            },
    {
        match self.get(k) {
            Some(v) => Some(v.duplicate()),
            None => None,
        }
    }
}

impl<V: Duplicate> Duplicate for NameMap<V> {
    fn duplicate(&self) -> (r: Self) {
        let mut out: Vec<(String, V)> = Vec::new();
        let mut i: usize = 0;
        while i < self.entries.len()
            invariant
                i <= self.entries@.len(),
                out@.len() == i,
                forall|j: int| 0 <= j < i ==> (#[trigger] out@[j]).0@ == self.entries@[j].0@,
                forall|j: int| 0 <= j < i ==> (#[trigger] out@[j]).1.deep_view() == self.entries@[j].1.deep_view(),
            decreases self.entries@.len() - i,
        {
            let k = self.entries[i].0.clone();
            let v = self.entries[i].1.duplicate();
            out.push((k, v));
            i = i + 1;
        }
        let r = NameMap { entries: out };
        proof {
            assert forall|k: Seq<char>| #[trigger] latest(r.entries@, k) == latest(self.entries@, k) by {
                lemma_latest_same_keys(r.entries@, self.entries@, k);
            }
            assert forall|k: Seq<char>| latest(r.entries@, k) >= 0 implies
                r.entries@[latest(r.entries@, k)].1.deep_view() == self.entries@[latest(self.entries@, k)].1.deep_view() by {
                lemma_latest_bounds(r.entries@, k);
            }
        }
        assert(r.deep_view() =~= self.deep_view());
        r
    }
}

/// A set of names.
#[derive(Clone, Debug)]
pub struct NameSet {
    pub items: Vec<String>,
}

impl View for NameSet {
    type V = Set<Seq<char>>;

    open spec fn view(&self) -> Set<Seq<char>> {
        Set::new(|k: Seq<char>| exists|i: int| 0 <= i < self.items@.len() && #[trigger] self.items@[i]@ == k)
    }
}

impl NameSet {
    /// The empty set.
    pub fn new() -> (r: Self)
        ensures
            r@ == Set::<Seq<char>>::empty(),
    {
        let r = NameSet { items: Vec::new() };
        assert(r@ =~= Set::<Seq<char>>::empty());
        r
    }

    /// Membership test.
    pub fn contains(&self, k: &str) -> (r: bool)
        ensures
            r == self@.contains(k@),
    {
        let mut i: usize = 0;
        while i < self.items.len()
            invariant
                i <= self.items@.len(),
                forall|j: int| 0 <= j < i ==> self.items@[j]@ != k@,
            decreases self.items@.len() - i,
        {
            if str_eq(self.items[i].as_str(), k) {
                return true;
            }
            i = i + 1;
        }
        false
    }

    /// Adds `k`; true when it was not already present.
    pub fn insert(&mut self, k: String) -> (r: bool)
        ensures
            final(self)@ == old(self)@.insert(k@),
            r == !old(self)@.contains(k@),
    {
        if self.contains(k.as_str()) {
            assert(self@.insert(k@) =~= self@);
            false
        } else {
            let ghost old_items = self.items@;
            self.items.push(k);
            assert forall|q: Seq<char>| #[trigger] self@.contains(q) <==> old(self)@.insert(k@).contains(q) by {
                if q == k@ {
                    assert(self.items@[old_items.len() as int]@ == q);
                }
                if old(self)@.contains(q) {
                    let j = choose|j: int| 0 <= j < old_items.len() && #[trigger] old_items[j]@ == q;
                    assert(self.items@[j]@ == q);
                }
            }
            assert(self@ =~= old(self)@.insert(k@));
            true
        }
    }

    /// Number of names in the set.
    pub fn len(&self) -> (r: usize)
        ensures
            r == self.items@.len(),
    {
        self.items.len()
    }
}

impl DeepView for NameSet {
    type V = Set<Seq<char>>;

    open spec fn deep_view(&self) -> Set<Seq<char>> {
        self@
    }
}

impl Duplicate for NameSet {
    fn duplicate(&self) -> (r: Self) {
        let items = self.items.duplicate();
        let r = NameSet { items };
        assert(r.items.deep_view().len() == self.items.deep_view().len());
        assert(r.items@.len() == self.items@.len());
        assert forall|q: Seq<char>| #[trigger] r@.contains(q) <==> self@.contains(q) by {
            if r@.contains(q) {
                let j = choose|j: int| 0 <= j < r.items@.len() && #[trigger] r.items@[j]@ == q;
                assert(r.items.deep_view()[j] == self.items.deep_view()[j]);
                assert(r.items.deep_view()[j] == r.items@[j]@);
                assert(self.items.deep_view()[j] == self.items@[j]@);
            }
            if self@.contains(q) {
                let j = choose|j: int| 0 <= j < self.items@.len() && #[trigger] self.items@[j]@ == q;
                assert(r.items.deep_view()[j] == self.items.deep_view()[j]);
                assert(r.items.deep_view()[j] == r.items@[j]@);
                assert(self.items.deep_view()[j] == self.items@[j]@);
            }
        }
        assert(r@ =~= self@);
        r
    }
}

} // verus!
