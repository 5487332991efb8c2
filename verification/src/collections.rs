//! Small collections with their specifications: a text-keyed map kept as an
//! association list, and a list that holds each value at most once.
use vstd::prelude::*;
use crate::text::str_eq;

verus! {

/// Index of the first entry whose key is `k`.
pub open spec fn key_index<W>(e: Seq<(Seq<char>, W)>, k: Seq<char>) -> Option<int>
    decreases e.len(),
{
    if e.len() == 0 {
        None
    } else if e[0].0 == k {
        Some(0)
    } else {
        match key_index(e.drop_first(), k) {
            Some(i) => Some(i + 1),
            None => None,
        }
    }
}

/// Value stored under key `k`.
pub open spec fn lookup<W>(e: Seq<(Seq<char>, W)>, k: Seq<char>) -> Option<W> {
    match key_index(e, k) {
        Some(i) => Some(e[i].1),
        None => None,
    }
}

/// The entries after storing `v` under `k`: the first entry with key `k` is
/// replaced by the pair, or the pair is appended.
pub open spec fn map_insert<W>(e: Seq<(Seq<char>, W)>, k: Seq<char>, v: W) -> Seq<(Seq<char>, W)> {
    match key_index(e, k) {
        Some(i) => e.update(i, (k, v)),
        None => e.push((k, v)),
    }
}

/// The keys of a map, in order.
pub open spec fn map_keys<W>(e: Seq<(Seq<char>, W)>) -> Seq<Seq<char>> {
    e.map_values(|p: (Seq<char>, W)| p.0)
}

pub proof fn lemma_key_index<W>(e: Seq<(Seq<char>, W)>, k: Seq<char>)
    ensures
        match key_index(e, k) {
            Some(i) => 0 <= i < e.len() && e[i].0 == k
                && forall|j: int| 0 <= j < i ==> e[j].0 != k,
            None => forall|j: int| 0 <= j < e.len() ==> e[j].0 != k,
        },
    decreases e.len(),
{
    if e.len() > 0 && e[0].0 != k {
        lemma_key_index(e.drop_first(), k);
        assert forall|j: int| 1 <= j < e.len() implies e[j].0 == e.drop_first()[j - 1].0 by {}
    }
}

/// Storing under a key keeps each key once: the entries grow by one only
/// for a key not held yet, so their number is the number of keys stored.
pub proof fn law_map_insert_keys<W>(e: Seq<(Seq<char>, W)>, k: Seq<char>, v: W)
    requires
        no_dups(map_keys(e)),
    ensures
        no_dups(map_keys(map_insert(e, k, v))),
        map_insert(e, k, v).len() == e.len() + if lookup(e, k) is Some { 0int } else { 1int },
{
    lemma_key_index(e, k);
    let e2 = map_insert(e, k, v);
    assert forall|i: int, j: int| 0 <= i < j < e2.len() implies map_keys(e2)[i] != map_keys(e2)[j] by {
        match key_index(e, k) {
            Some(p) => {
                if i != p && j != p {
                    assert(map_keys(e)[i] != map_keys(e)[j]);
                } else if i == p {
                    assert(map_keys(e)[p] != map_keys(e)[j]);
                } else {
                    assert(map_keys(e)[i] != map_keys(e)[p]);
                }
            },
            None => {
                if j < e.len() {
                    assert(map_keys(e)[i] != map_keys(e)[j]);
                } else {
                    assert(e[i].0 != k);
                }
            },
        }
    }
}

/// The entries after storing each pair of `kv`, in order.
pub open spec fn insert_all<W>(e: Seq<(Seq<char>, W)>, kv: Seq<(Seq<char>, W)>) -> Seq<(Seq<char>, W)>
    decreases kv.len(),
{
    if kv.len() == 0 { e } else { map_insert(insert_all(e, kv.drop_last()), kv.last().0, kv.last().1) }
}

/// The value stored last under `k` among the pairs of `kv`.
pub open spec fn last_value<W>(kv: Seq<(Seq<char>, W)>, k: Seq<char>) -> Option<W>
    decreases kv.len(),
{
    if kv.len() == 0 {
        None
    } else if kv.last().0 == k {
        Some(kv.last().1)
    } else {
        last_value(kv.drop_last(), k)
    }
}

/// After a run of inserts, a key gives the value stored under it last, or
/// what it gave before where the run does not store it; and, starting
/// empty, the number of entries is the number of distinct keys stored.
pub proof fn law_insert_all<W>(e: Seq<(Seq<char>, W)>, kv: Seq<(Seq<char>, W)>, k: Seq<char>)
    ensures
        lookup(insert_all(e, kv), k) == match last_value(kv, k) { Some(v) => Some(v), None => lookup(e, k) },
        e.len() == 0 ==> insert_all(e, kv).len() == map_keys(kv).to_set().len(),
    decreases kv.len(),
{
    broadcast use vstd::set::group_set_axioms, vstd::seq_lib::seq_to_set_is_finite;
    if kv.len() == 0 {
        if e.len() == 0 {
            assert(map_keys(kv).to_set() =~= Set::<Seq<char>>::empty());
        }
    } else {
        let prev = insert_all(e, kv.drop_last());
        let (k0, v0) = kv.last();
        law_insert_all(e, kv.drop_last(), k);
        lemma_lookup_insert(prev, k0, v0, k);
        if e.len() == 0 {
            law_insert_all(e, kv.drop_last(), k0);
            lemma_key_index(prev, k0);
            assert(map_keys(kv) =~= map_keys(kv.drop_last()).push(k0));
            map_keys(kv.drop_last()).lemma_push_to_set_commute(k0);
            lemma_last_value_keys(kv.drop_last(), k0);
        }
    }
}

/// A key has a last value exactly where it is among the keys.
proof fn lemma_last_value_keys<W>(kv: Seq<(Seq<char>, W)>, k: Seq<char>)
    ensures
        last_value(kv, k) is Some <==> map_keys(kv).to_set().contains(k),
    decreases kv.len(),
{
    if kv.len() > 0 {
        lemma_last_value_keys(kv.drop_last(), k);
        assert(map_keys(kv) =~= map_keys(kv.drop_last()).push(kv.last().0));
        map_keys(kv.drop_last()).lemma_push_to_set_commute(kv.last().0);
    } else {
        assert(map_keys(kv).to_set() =~= Set::<Seq<char>>::empty());
    }
}

/// Lookups after an insert: the new key gives the new value, other keys are unchanged.
pub proof fn lemma_lookup_insert<W>(e: Seq<(Seq<char>, W)>, k: Seq<char>, v: W, k2: Seq<char>)
    ensures
        lookup(map_insert(e, k, v), k2) == if k2 == k { Some(v) } else { lookup(e, k2) },
{
    lemma_key_index(e, k);
    lemma_key_index(e, k2);
    let e2 = map_insert(e, k, v);
    lemma_key_index(e2, k2);
    match key_index(e, k) {
        Some(p) => {
            assert(forall|j: int| 0 <= j < e.len() ==> #[trigger] e2[j].0 == e[j].0);
            match (key_index(e2, k2), key_index(e, k2)) {
                (Some(i), Some(i0)) => {
                    if i < i0 { assert(e[i].0 == k2); }
                    if i0 < i { assert(e2[i0].0 == k2); }
                },
                (Some(i), None) => { assert(e[i].0 == k2); },
                (None, Some(i0)) => { assert(e2[i0].0 == k2); },
                _ => {},
            }
        },
        None => {
            assert(forall|j: int| 0 <= j < e.len() ==> #[trigger] e2[j] == e[j]);
            match (key_index(e2, k2), key_index(e, k2)) {
                (Some(i), Some(i0)) => {
                    if i < i0 { assert(e2[i].0 == k2); }
                    if i0 < i { assert(e2[i0].0 == k2); }
                },
                (Some(i), None) => {
                    if k2 != k { assert(i < e.len()); assert(e[i].0 == k2); }
                },
                (None, Some(i0)) => { assert(e2[i0].0 == k2); },
                (None, None) => {
                    if k2 == k { assert(e2[e.len() as int].0 == k2); }
                },
            }
        },
    }
}

/// A map from text keys to values, kept in insertion order.
#[derive(Debug)]
pub struct StrMap<V> {
    /// key and value pairs
    pub entries: Vec<(String, V)>,
}

impl<V: View> View for StrMap<V> {
    type V = Seq<(Seq<char>, V::V)>;

    open spec fn view(&self) -> Self::V {
        self.entries@.map_values(|p: (String, V)| (p.0@, p.1@))
    }
}

impl<V: View> StrMap<V> {
    /// An empty map.
    pub fn new() -> (r: Self)
        ensures
            r@.len() == 0,
            no_dups(map_keys(r@)),
    {
        StrMap { entries: Vec::new() }
    }

    /// Number of entries.
    pub fn len(&self) -> (r: usize)
        ensures
            r == self@.len(),
    {
        self.entries.len()
    }

    /// Index of the entry with key `k`.
    pub fn find(&self, k: &str) -> (r: Option<usize>)
        ensures
            match r {
                Some(i) => key_index(self@, k@) == Some(i as int) && i < self.entries@.len(),
                None => key_index(self@, k@) is None,
            },
    {
        proof { lemma_key_index(self@, k@); }
        let mut i: usize = 0;
        while i < self.entries.len()
            invariant
                i <= self.entries@.len(),
                self@.len() == self.entries@.len(),
                forall|j: int| 0 <= j < i ==> self@[j].0 != k@,
                match key_index(self@, k@) {
                    Some(x) => 0 <= x < self@.len() && self@[x].0 == k@
                        && forall|j: int| 0 <= j < x ==> self@[j].0 != k@,
                    None => forall|j: int| 0 <= j < self@.len() ==> self@[j].0 != k@,
                },
            decreases self.entries.len() - i,
        {
            assert(self@[i as int].0 == self.entries@[i as int].0@);
            if str_eq(self.entries[i].0.as_str(), k) {
                return Some(i);
            }
            i = i + 1;
        }
        None
    }

    /// The value stored under `k`.
    pub fn get(&self, k: &str) -> (r: Option<&V>)
        ensures
            match r {
                Some(v) => lookup(self@, k@) == Some(v@),
                None => lookup(self@, k@) is None,
            },
    {
        proof { lemma_key_index(self@, k@); }
        match self.find(k) {
            Some(i) => Some(&self.entries[i].1),
            None => None,
        }
    }

    /// Store `v` under `k`.
    pub fn insert(&mut self, k: String, v: V)
        ensures
            final(self)@ == map_insert(old(self)@, k@, v@),
            final(self)@.len() == old(self)@.len() + if lookup(old(self)@, k@) is Some { 0int } else { 1int },
            no_dups(map_keys(old(self)@)) ==> no_dups(map_keys(final(self)@)),
    {
        proof {
            if no_dups(map_keys(old(self)@)) {
                law_map_insert_keys(old(self)@, k@, v@);
            }
            lemma_key_index(old(self)@, k@);
        }
        match self.find(k.as_str()) {
            Some(i) => {
                self.entries.set(i, (k, v));
                assert(self@ =~= map_insert(old(self)@, k@, v@));
            },
            None => {
                self.entries.push((k, v));
                assert(self@ =~= map_insert(old(self)@, k@, v@));
            },
        }
    }

    /// Take out the entry at `i`, to put it back with [`StrMap::put_back`].
    pub fn take_at(&mut self, i: usize) -> (r: (String, V))
        requires
            i < old(self).entries@.len(),
        ensures
            r == old(self).entries@[i as int],
            final(self).entries@ == old(self).entries@.remove(i as int),
    {
        self.entries.remove(i)
    }

    /// Put an entry back at `i`.
    pub fn put_back(&mut self, i: usize, e: (String, V))
        requires
            i <= old(self).entries@.len(),
        ensures
            final(self).entries@ == old(self).entries@.insert(i as int, e),
    {
        self.entries.insert(i, e);
    }
}

/// No value occurs twice.
pub open spec fn no_dups<T>(s: Seq<T>) -> bool {
    forall|i: int, j: int| 0 <= i < j < s.len() ==> s[i] != s[j]
}

/// A set of mod issues, each held once, in the order they were raised.
#[derive(Debug, Clone)]
pub struct IssueSet {
    /// the values, in insertion order
    pub items: Vec<crate::errors::ModError>,
}

impl IssueSet {
    /// An empty set.
    pub fn new() -> (r: Self)
        ensures
            r.items@.len() == 0,
    {
        IssueSet { items: Vec::new() }
    }

    /// Is `x` in the set?
    pub fn contains(&self, x: crate::errors::ModError) -> (r: bool)
        ensures
            r == self.items@.contains(x),
    {
        let mut i: usize = 0;
        while i < self.items.len()
            invariant
                i <= self.items@.len(),
                forall|j: int| 0 <= j < i ==> self.items@[j] != x,
            decreases self.items.len() - i,
        {
            if self.items[i] == x {
                assert(self.items@[i as int] == x);
                return true;
            }
            i = i + 1;
        }
        false
    }

    /// Add `x`, where it is not there yet.
    pub fn insert(&mut self, x: crate::errors::ModError)
        ensures
            final(self).items@ == if old(self).items@.contains(x) {
                old(self).items@
            } else {
                old(self).items@.push(x)
            },
            final(self).items@.to_set() == old(self).items@.to_set().insert(x),
            no_dups(old(self).items@) ==> no_dups(final(self).items@),
    {
        if !self.contains(x) {
            self.items.push(x);
            assert(self.items@.to_set() =~= old(self).items@.to_set().insert(x)) by {
                assert forall|y: crate::errors::ModError| #[trigger] self.items@.contains(y) <==> (old(self).items@.contains(y) || y == x) by {
                    if self.items@.contains(y) {
                        let j = choose|j: int| 0 <= j < self.items@.len() && self.items@[j] == y;
                        if j < old(self).items@.len() {
                            assert(old(self).items@[j] == y);
                        }
                    }
                    if old(self).items@.contains(y) {
                        let j = choose|j: int| 0 <= j < old(self).items@.len() && old(self).items@[j] == y;
                        assert(self.items@[j] == y);
                    }
                    if y == x {
                        assert(self.items@[self.items@.len() - 1] == x);
                    }
                }
            }
        } else {
            assert(old(self).items@.to_set() =~= old(self).items@.to_set().insert(x));
        }
    }

    /// Number of values.
    pub fn len(&self) -> (r: usize)
        ensures
            r == self.items@.len(),
    {
        self.items.len()
    }
}

/// A set of farm ids, each held once.
#[derive(Debug, Clone)]
pub struct FarmSet {
    /// the values, in insertion order
    pub items: Vec<usize>,
}

impl FarmSet {
    /// An empty set.
    pub fn new() -> (r: Self)
        ensures
            r.items@.len() == 0,
    {
        FarmSet { items: Vec::new() }
    }

    /// Is `x` in the set?
    pub fn contains(&self, x: usize) -> (r: bool)
        ensures
            r == self.items@.contains(x),
    {
        let mut i: usize = 0;
        while i < self.items.len()
            invariant
                i <= self.items@.len(),
                forall|j: int| 0 <= j < i ==> self.items@[j] != x,
            decreases self.items.len() - i,
        {
            if self.items[i] == x {
                assert(self.items@[i as int] == x);
                return true;
            }
            i = i + 1;
        }
        false
    }

    /// Add `x`, where it is not there yet.
    pub fn insert(&mut self, x: usize)
        ensures
            final(self).items@ == if old(self).items@.contains(x) {
                old(self).items@
            } else {
                old(self).items@.push(x)
            },
            final(self).items@.to_set() == old(self).items@.to_set().insert(x),
            no_dups(old(self).items@) ==> no_dups(final(self).items@),
    {
        if !self.contains(x) {
            self.items.push(x);
            assert(self.items@.to_set() =~= old(self).items@.to_set().insert(x)) by {
                assert forall|y: usize| #[trigger] self.items@.contains(y) <==> (old(self).items@.contains(y) || y == x) by {
                    if self.items@.contains(y) {
                        let j = choose|j: int| 0 <= j < self.items@.len() && self.items@[j] == y;
                        if j < old(self).items@.len() {
                            assert(old(self).items@[j] == y);
                        }
                    }
                    if old(self).items@.contains(y) {
                        let j = choose|j: int| 0 <= j < old(self).items@.len() && old(self).items@[j] == y;
                        assert(self.items@[j] == y);
                    }
                    if y == x {
                        assert(self.items@[self.items@.len() - 1] == x);
                    }
                }
            }
        } else {
            assert(old(self).items@.to_set() =~= old(self).items@.to_set().insert(x));
        }
    }

    /// Number of values.
    pub fn len(&self) -> (r: usize)
        ensures
            r == self.items@.len(),
    {
        self.items.len()
    }
}

} // verus!

verus! {

impl View for FarmSet {
    type V = Seq<usize>;

    open spec fn view(&self) -> Seq<usize> {
        self.items@
    }
}

impl View for IssueSet {
    type V = Seq<crate::errors::ModError>;

    open spec fn view(&self) -> Seq<crate::errors::ModError> {
        self.items@
    }
}

/// `x` added to a list, where it is not there yet.
pub open spec fn set_insert<T>(s: Seq<T>, x: T) -> Seq<T> {
    if s.contains(x) { s } else { s.push(x) }
}

/// The values of `b` added, in order, to `a`.
pub open spec fn set_union<T>(a: Seq<T>, b: Seq<T>) -> Seq<T>
    decreases b.len(),
{
    if b.len() == 0 {
        a
    } else {
        set_insert(set_union(a, b.drop_last()), b.last())
    }
}

/// A value is in the union exactly where it is in one of the sides.
pub proof fn lemma_set_union_contains<T>(a: Seq<T>, b: Seq<T>, x: T)
    ensures
        set_union(a, b).contains(x) <==> (a.contains(x) || b.contains(x)),
    decreases b.len(),
{
    if b.len() > 0 {
        lemma_set_union_contains(a, b.drop_last(), x);
        let u = set_union(a, b.drop_last());
        if !u.contains(b.last()) {
            assert(u.push(b.last())[u.len() as int] == b.last());
            if u.push(b.last()).contains(x) && x != b.last() {
                let j = choose|j: int| 0 <= j < u.len() + 1 && u.push(b.last())[j] == x;
                assert(u[j] == x);
            }
            if u.contains(x) {
                let j = choose|j: int| 0 <= j < u.len() && u[j] == x;
                assert(u.push(b.last())[j] == x);
            }
        }
        if b.contains(x) && x != b.last() {
            let j = choose|j: int| 0 <= j < b.len() && b[j] == x;
            assert(b.drop_last()[j] == x);
        }
        if b.drop_last().contains(x) {
            let j = choose|j: int| 0 <= j < b.len() - 1 && b.drop_last()[j] == x;
            assert(b[j] == x);
        }
        assert(b[b.len() - 1] == b.last());
    }
}

} // verus!
