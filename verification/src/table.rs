//! A finite map kept as a list of entries with distinct keys.

use vstd::prelude::*;

verus! {

/// A value by which a `Table` is searched.
pub trait Key: View + Sized {
    /// Whether the two keys are the same.
    fn same(&self, other: &Self) -> (r: bool)
        ensures
            r == (self@ == other@),
    ;
}

impl Key for u128 {
    fn same(&self, other: &Self) -> (r: bool) {
        *self == *other
    }
}

impl Key for String {
    fn same(&self, other: &Self) -> (r: bool) {
        *self == *other
    }
}

/// A finite map.
pub struct Table<K, V> {
    entries: Vec<(K, V)>,
}

/// Whether one of `entries` has the key `k`.
pub closed spec fn has_key<K: View, V: View>(entries: Seq<(K, V)>, k: K::V) -> bool {
    exists|i: int| 0 <= i < entries.len() && (#[trigger] entries[i]).0@ == k
}

/// Where in `entries` the key `k` stands.
pub closed spec fn position<K: View, V: View>(entries: Seq<(K, V)>, k: K::V) -> int {
    choose|i: int| 0 <= i < entries.len() && (#[trigger] entries[i]).0@ == k
}

/// The map that `entries` list.
pub closed spec fn listed<K: View, V: View>(entries: Seq<(K, V)>) -> Map<K::V, V::V> {
    Map::new(|k: K::V| has_key(entries, k), |k: K::V| entries[position(entries, k)].1@)
}

/// No key stands twice in `entries`.
pub closed spec fn distinct<K: View, V: View>(entries: Seq<(K, V)>) -> bool {
    forall|i: int, j: int|
        0 <= i < j < entries.len() ==> (#[trigger] entries[i]).0@ != (#[trigger] entries[j]).0@
}

/// What is left of `m` when only the values on which `keep` holds stay.
pub open spec fn kept<K, V>(m: Map<K, V>, keep: spec_fn(V) -> bool) -> Map<K, V> {
    Map::new(|k: K| m.contains_key(k) && keep(m[k]), |k: K| m[k])
}

/// How many values of `m` satisfy `p`.
pub open spec fn tally<K, V>(m: Map<K, V>, p: spec_fn(V) -> bool) -> nat {
    m.dom().filter(|k: K| p(m[k])).len()
}

impl<K: View, V: View> View for Table<K, V> {
    type V = Map<K::V, V::V>;

    closed spec fn view(&self) -> Map<K::V, V::V> {
        listed(self.entries@)
    }
}

proof fn lemma_listed_at<K: View, V: View>(entries: Seq<(K, V)>, i: int)
    requires
        distinct(entries),
        0 <= i < entries.len(),
    ensures
        listed(entries).contains_key(entries[i].0@),
        listed(entries)[entries[i].0@] == entries[i].1@,
{
    let k = entries[i].0@;
    assert(has_key(entries, k));
    let p = position(entries, k);
    assert(0 <= p < entries.len() && entries[p].0@ == k);
    assert(p == i) by {
        if p < i {
            assert(entries[p].0@ != entries[i].0@);
        } else if i < p {
            assert(entries[i].0@ != entries[p].0@);
        }
    }
}

proof fn lemma_listed_len<K: View, V: View>(entries: Seq<(K, V)>)
    requires
        distinct(entries),
    ensures
        listed(entries).dom().finite(),
        listed(entries).len() == entries.len(),
{
    let keys = entries.map_values(|e: (K, V)| e.0@);
    assert(keys.no_duplicates()) by {
        assert forall|i: int, j: int|
            0 <= i < keys.len() && 0 <= j < keys.len() && i != j implies keys[i] != keys[j] by {
            if i < j {
                assert(entries[i].0@ != entries[j].0@);
            } else {
                assert(entries[j].0@ != entries[i].0@);
            }
        }
    }
    keys.unique_seq_to_set();
    vstd::seq_lib::seq_to_set_is_finite(keys);
    assert(keys.to_set() =~= listed(entries).dom()) by {
        assert forall|k: K::V| keys.to_set().contains(k) == has_key(entries, k) by {
            if keys.contains(k) {
                let i = choose|i: int| 0 <= i < keys.len() && keys[i] == k;
                assert(entries[i].0@ == k);
            }
            if has_key(entries, k) {
                let i = position(entries, k);
                assert(keys[i] == k);
            }
        }
    }
}

impl<K: Key, V: View> Table<K, V> {
    /// No key stands twice.
    pub closed spec fn wf(&self) -> bool {
        distinct(self.entries@)
    }

    /// The keys, in the order in which they are kept.
    pub closed spec fn keys(&self) -> Seq<K::V> {
        self.entries@.map_values(|e: (K, V)| e.0@)
    }

    /// The keys of a table are those of its map, each of them once.
    pub proof fn lemma_keys(&self)
        requires
            self.wf(),
        ensures
            self@.dom().finite(),
            self.keys().no_duplicates(),
            self.keys().len() == self@.len(),
            forall|k: K::V| #[trigger] self@.contains_key(k) == self.keys().contains(k),
    {
        let keys = self.keys();
        lemma_listed_len(self.entries@);
        assert forall|i: int, j: int|
            0 <= i < keys.len() && 0 <= j < keys.len() && i != j implies keys[i] != keys[j] by {
            if i < j {
                assert(self.entries@[i].0@ != self.entries@[j].0@);
            } else {
                assert(self.entries@[j].0@ != self.entries@[i].0@);
            }
        }
        assert forall|k: K::V| #[trigger] self@.contains_key(k) == keys.contains(k) by {
            if keys.contains(k) {
                let i = choose|i: int| 0 <= i < keys.len() && keys[i] == k;
                assert(self.entries@[i].0@ == k);
            }
            if has_key(self.entries@, k) {
                assert(keys[position(self.entries@, k)] == k);
            }
        }
    }

    /// The value at the key that is kept at place `i`.
    pub fn value_at(&self, i: usize) -> (r: &V)
        requires
            self.wf(),
            i < self.keys().len(),
        ensures
            self@.contains_key(self.keys()[i as int]),
            r@ == self@[self.keys()[i as int]],
    {
        proof {
            lemma_listed_at(self.entries@, i as int);
        }
        &self.entries[i].1
    }

    /// The empty map.
    pub fn new() -> (r: Self)
        ensures
            r.wf(),
            r@ == Map::<K::V, V::V>::empty(),
    {
        let r = Table { entries: Vec::new() };
        proof {
            assert(r@ =~= Map::<K::V, V::V>::empty());
        }
        r
    }

    /// The number of keys.
    pub fn len(&self) -> (r: usize)
        requires
            self.wf(),
        ensures
            r == self@.len(),
    {
        proof {
            lemma_listed_len(self.entries@);
        }
        self.entries.len()
    }

    fn find(&self, key: &K) -> (r: Option<usize>)
        requires
            self.wf(),
        ensures
            match r {
                Some(i) => i < self.entries.len() && self.entries[i as int].0@ == key@,
                None => forall|i: int|
                    0 <= i < self.entries.len() ==> (#[trigger] self.entries@[i]).0@ != key@,
            },
    {
        let mut i: usize = 0;
        while i < self.entries.len()
            invariant
                i <= self.entries.len(),
                forall|j: int| 0 <= j < i ==> (#[trigger] self.entries@[j]).0@ != key@,
            decreases self.entries.len() - i,
        {
            if self.entries[i].0.same(key) {
                return Some(i);
            }
            i += 1;
        }
        None
    }

    /// The value at `key`.
    pub fn get(&self, key: &K) -> (r: Option<&V>)
        requires
            self.wf(),
        ensures
            match r {
                Some(v) => self@.contains_key(key@) && v@ == self@[key@],
                None => !self@.contains_key(key@),
            },
    {
        match self.find(key) {
            Some(i) => {
                proof {
                    lemma_listed_at(self.entries@, i as int);
                }
                Some(&self.entries[i].1)
            },
            None => None,
        }
    }

    /// Puts `value` at `key`.
    pub fn insert(&mut self, key: K, value: V)
        requires
            old(self).wf(),
        ensures
            final(self).wf(),
            final(self)@ == old(self)@.insert(key@, value@),
    {
        let ghost before = self.entries@;
        let ghost k = key@;
        let ghost v = value@;
        match self.find(&key) {
            Some(i) => {
                self.entries.set(i, (key, value));
                proof {
                    let after = self.entries@;
                    assert forall|j: int| 0 <= j < after.len() implies (#[trigger] after[j]).0@
                        == before[j].0@ by {}
                    assert(distinct(after)) by {
                        assert forall|a: int, b: int| 0 <= a < b < after.len() implies (
                        #[trigger] after[a]).0@ != (#[trigger] after[b]).0@ by {
                            assert(before[a].0@ != before[b].0@);
                        }
                    }
                    lemma_replaced(before, after, i as int, k, v);
                }
            },
            None => {
                self.entries.push((key, value));
                proof {
                    let after = self.entries@;
                    assert(distinct(after)) by {
                        assert forall|a: int, b: int| 0 <= a < b < after.len() implies (
                        #[trigger] after[a]).0@ != (#[trigger] after[b]).0@ by {
                            if b < before.len() {
                                assert(before[a].0@ != before[b].0@);
                            } else {
                                assert(before[a].0@ != k);
                            }
                        }
                    }
                    assert(after.drop_last() =~= before);
                    lemma_added(before, after, k, v);
                }
            },
        }
    }

    /// Takes `key` and its value out of the map.
    pub fn remove(&mut self, key: &K) -> (r: Option<V>)
        requires
            old(self).wf(),
        ensures
            final(self).wf(),
            final(self)@ == old(self)@.remove(key@),
            match r {
                Some(v) => old(self)@.contains_key(key@) && v@ == old(self)@[key@],
                None => !old(self)@.contains_key(key@),
            },
    {
        let ghost before = self.entries@;
        match self.find(key) {
            Some(i) => {
                let (_, value) = self.entries.remove(i);
                proof {
                    lemma_listed_at(before, i as int);
                    lemma_removed(before, i as int);
                }
                Some(value)
            },
            None => {
                proof {
                    assert(self@ =~= old(self)@.remove(key@));
                }
                None
            },
        }
    }

    /// Drops the values on which `keep` does not hold.
    pub fn retain<F: Fn(&V) -> bool>(&mut self, keep: F, Ghost(p): Ghost<spec_fn(V::V) -> bool>)
        requires
            old(self).wf(),
            forall|v: &V| call_requires(keep, (v,)),
            forall|v: &V, b: bool| call_ensures(keep, (v,), b) ==> b == p(v@),
        ensures
            final(self).wf(),
            final(self)@ == kept(old(self)@, p),
    {
        let ghost before = self.entries@;
        let mut rest: Vec<(K, V)> = Vec::new();
        std::mem::swap(&mut rest, &mut self.entries);
        let ghost mut from: Seq<int> = Seq::empty();
        while rest.len() > 0
            invariant
                distinct(before),
                forall|v: &V| call_requires(keep, (v,)),
                forall|v: &V, b: bool| call_ensures(keep, (v,), b) ==> b == p(v@),
                rest@ == before.take(rest.len() as int),
                rest.len() <= before.len(),
                from.len() == self.entries.len(),
                forall|i: int|
                    0 <= i < from.len() ==> rest.len() <= #[trigger] from[i] < before.len()
                        && self.entries@[i] == before[from[i]] && p(before[from[i]].1@),
                forall|i: int, j: int| 0 <= i < j < from.len() ==> from[i] > from[j],
                forall|j: int|
                    rest.len() <= j < before.len() && p((#[trigger] before[j]).1@)
                        ==> from.contains(j),
            decreases rest.len(),
        {
            let ghost n = rest.len() - 1;
            let ghost earlier = from;
            match rest.pop() {
                Some(entry) => {
                    let stays: bool = keep(&entry.1);
                    if stays {
                        self.entries.push(entry);
                        proof {
                            from = from.push(n);
                            assert(from[from.len() - 1] == n);
                            assert forall|j: int| earlier.contains(j) implies from.contains(j) by {
                                let i = choose|i: int| 0 <= i < earlier.len() && earlier[i] == j;
                                assert(from[i] == j);
                            }
                        }
                    }
                    proof {
                        assert(rest@ =~= before.take(n));
                    }
                },
                None => {},
            }
        }
        proof {
            let after = self.entries@;
            let m = kept(listed(before), p);
            assert forall|a: int, b: int| 0 <= a < b < after.len() implies (
            #[trigger] after[a]).0@ != (#[trigger] after[b]).0@ by {
                assert(from[a] > from[b]);
                assert(before[from[b]].0@ != before[from[a]].0@);
            }
            assert forall|j: int| 0 <= j < after.len() implies m.contains_key(
                (#[trigger] after[j]).0@,
            ) && m[after[j].0@] == after[j].1@ by {
                assert(after[j] == before[from[j]]);
                lemma_listed_at(before, from[j]);
            }
            assert forall|q: K::V| m.contains_key(q) implies has_key(after, q) by {
                let x = position(before, q);
                assert(before[x].0@ == q);
                assert(from.contains(x));
                let i = choose|i: int| 0 <= i < from.len() && from[i] == x;
                assert(after[i].0@ == q);
            }
            lemma_same_listing(after, m);
        }
    }

    /// The number of values on which `test` holds.
    pub fn count<F: Fn(&V) -> bool>(&self, test: F, Ghost(p): Ghost<spec_fn(V::V) -> bool>) -> (r:
        usize)
        requires
            self.wf(),
            forall|v: &V| call_requires(test, (v,)),
            forall|v: &V, b: bool| call_ensures(test, (v,), b) ==> b == p(v@),
        ensures
            r == tally(self@, p),
    {
        let ghost entries = self.entries@;
        let mut total: usize = 0;
        let mut i: usize = 0;
        proof {
            assert(counted_keys(entries, p, 0) =~= Set::<K::V>::empty());
        }
        while i < self.entries.len()
            invariant
                self.wf(),
                entries == self.entries@,
                i <= self.entries.len(),
                total <= i,
                forall|v: &V| call_requires(test, (v,)),
                forall|v: &V, b: bool| call_ensures(test, (v,), b) ==> b == p(v@),
                counted_keys(entries, p, i as int).finite(),
                total == counted_keys(entries, p, i as int).len(),
            decreases self.entries.len() - i,
        {
            let hit: bool = test(&self.entries[i].1);
            proof {
                lemma_counted_step(entries, p, i as int);
            }
            if hit {
                total += 1;
            }
            i += 1;
        }
        proof {
            let m = self@;
            assert(counted_keys(entries, p, i as int) =~= m.dom().filter(|k: K::V| p(m[k]))) by {
                assert forall|k: K::V| counted_keys(entries, p, i as int).contains(k)
                    == m.dom().filter(|k: K::V| p(m[k])).contains(k) by {
                    if counted_keys(entries, p, i as int).contains(k) {
                        let j = choose|j: int|
                            0 <= j < i && (#[trigger] entries[j]).0@ == k && p(entries[j].1@);
                        lemma_listed_at(entries, j);
                    }
                    if m.contains_key(k) && p(m[k]) {
                        let j = position(entries, k);
                        assert(entries[j].0@ == k);
                        lemma_listed_at(entries, j);
                    }
                }
            }
        }
        total
    }
}

spec fn counted_keys<K: View, V: View>(
    entries: Seq<(K, V)>,
    p: spec_fn(V::V) -> bool,
    n: int,
) -> Set<K::V> {
    Set::new(
        |k: K::V| exists|j: int| 0 <= j < n && (#[trigger] entries[j]).0@ == k && p(entries[j].1@),
    )
}

proof fn lemma_counted_step<K: View, V: View>(
    entries: Seq<(K, V)>,
    p: spec_fn(V::V) -> bool,
    n: int,
)
    requires
        distinct(entries),
        0 <= n < entries.len(),
        counted_keys(entries, p, n).finite(),
    ensures
        counted_keys(entries, p, n + 1).finite(),
        counted_keys(entries, p, n + 1).len() == counted_keys(entries, p, n).len() + if p(
            entries[n].1@,
        ) {
            1int
        } else {
            0int
        },
{
    let before = counted_keys(entries, p, n);
    let after = counted_keys(entries, p, n + 1);
    let k = entries[n].0@;
    assert(!before.contains(k)) by {
        if before.contains(k) {
            let j = choose|j: int|
                0 <= j < n && (#[trigger] entries[j]).0@ == k && p(entries[j].1@);
            assert(entries[j].0@ != entries[n].0@);
        }
    }
    if p(entries[n].1@) {
        assert(after =~= before.insert(k)) by {
            assert(entries[n].0@ == k);
        }
    } else {
        assert(after =~= before) by {
            assert forall|q: K::V| after.contains(q) implies before.contains(q) by {
                let j = choose|j: int|
                    0 <= j < n + 1 && (#[trigger] entries[j]).0@ == q && p(entries[j].1@);
                assert(j < n);
            }
        }
    }
}

proof fn lemma_same_listing<K: View, V: View>(
    entries: Seq<(K, V)>,
    m: Map<K::V, V::V>,
)
    requires
        distinct(entries),
        forall|i: int|
            0 <= i < entries.len() ==> m.contains_key((#[trigger] entries[i]).0@)
                && m[entries[i].0@] == entries[i].1@,
        forall|k: K::V| m.contains_key(k) ==> has_key(entries, k),
    ensures
        listed(entries) == m,
{
    assert(listed(entries) =~= m) by {
        assert forall|k: K::V| listed(entries).contains_key(k) == m.contains_key(k) by {
            if has_key(entries, k) {
                assert(m.contains_key(entries[position(entries, k)].0@));
            }
        }
        assert forall|k: K::V| listed(entries).contains_key(k) implies listed(entries)[k]
            == m[k] by {
            let i = position(entries, k);
            assert(entries[i].0@ == k);
        }
    }
}

proof fn lemma_replaced<K: View, V: View>(
    before: Seq<(K, V)>,
    after: Seq<(K, V)>,
    i: int,
    k: K::V,
    v: V::V,
)
    requires
        distinct(before),
        distinct(after),
        0 <= i < before.len(),
        before[i].0@ == k,
        after.len() == before.len(),
        after[i].0@ == k,
        after[i].1@ == v,
        forall|j: int| 0 <= j < before.len() && j != i ==> after[j] == before[j],
    ensures
        listed(after) == listed(before).insert(k, v),
{
    let m = listed(before).insert(k, v);
    assert forall|j: int| 0 <= j < after.len() implies m.contains_key((#[trigger] after[j]).0@)
        && m[after[j].0@] == after[j].1@ by {
        if j != i {
            lemma_listed_at(before, j);
            assert(before[j].0@ != k) by {
                if j < i {
                    assert(before[j].0@ != before[i].0@);
                } else {
                    assert(before[i].0@ != before[j].0@);
                }
            }
        }
    }
    assert forall|q: K::V| m.contains_key(q) implies has_key(after, q) by {
        if q == k {
            assert(after[i].0@ == q);
        } else {
            let p = position(before, q);
            assert(before[p].0@ == q);
            assert(after[p].0@ == q);
        }
    }
    lemma_same_listing(after, m);
}

proof fn lemma_added<K: View, V: View>(
    before: Seq<(K, V)>,
    after: Seq<(K, V)>,
    k: K::V,
    v: V::V,
)
    requires
        distinct(before),
        distinct(after),
        !has_key(before, k),
        after.len() == before.len() + 1,
        after.drop_last() == before,
        after.last().0@ == k,
        after.last().1@ == v,
    ensures
        listed(after) == listed(before).insert(k, v),
{
    let m = listed(before).insert(k, v);
    assert forall|j: int| 0 <= j < after.len() implies m.contains_key((#[trigger] after[j]).0@)
        && m[after[j].0@] == after[j].1@ by {
        if j < before.len() {
            assert(after[j] == before[j]);
            lemma_listed_at(before, j);
        }
    }
    assert forall|q: K::V| m.contains_key(q) implies has_key(after, q) by {
        if q == k {
            assert(after[after.len() - 1].0@ == q);
        } else {
            let p = position(before, q);
            assert(before[p].0@ == q);
            assert(after[p] == before[p]);
        }
    }
    lemma_same_listing(after, m);
}

proof fn lemma_removed<K: View, V: View>(before: Seq<(K, V)>, i: int)
    requires
        distinct(before),
        0 <= i < before.len(),
    ensures
        distinct(before.remove(i)),
        listed(before.remove(i)) == listed(before).remove(before[i].0@),
{
    let after = before.remove(i);
    let k = before[i].0@;
    let m = listed(before).remove(k);
    assert forall|a: int, b: int| 0 <= a < b < after.len() implies (#[trigger] after[a]).0@ != (
    #[trigger] after[b]).0@ by {
        let x = if a < i { a } else { a + 1 };
        let y = if b < i { b } else { b + 1 };
        assert(before[x].0@ != before[y].0@);
    }
    assert forall|j: int| 0 <= j < after.len() implies m.contains_key((#[trigger] after[j]).0@)
        && m[after[j].0@] == after[j].1@ by {
        let x = if j < i { j } else { j + 1 };
        assert(after[j] == before[x]);
        lemma_listed_at(before, x);
        if x < i {
            assert(before[x].0@ != before[i].0@);
        } else {
            assert(before[i].0@ != before[x].0@);
        }
    }
    assert forall|q: K::V| m.contains_key(q) implies has_key(after, q) by {
        let p = position(before, q);
        assert(before[p].0@ == q);
        if p < i {
            assert(after[p] == before[p]);
        } else {
            assert(after[p - 1] == before[p]);
        }
    }
    lemma_same_listing(after, m);
}

/// A finite set.
pub struct KeySet<K> {
    members: Vec<K>,
}

impl<K: View> View for KeySet<K> {
    type V = Set<K::V>;

    closed spec fn view(&self) -> Set<K::V> {
        self.members@.map_values(|k: K| k@).to_set()
    }
}

impl<K: Key> KeySet<K> {
    /// No member stands twice.
    pub closed spec fn wf(&self) -> bool {
        self.members@.map_values(|k: K| k@).no_duplicates()
    }

    /// The empty set.
    pub fn new() -> (r: Self)
        ensures
            r.wf(),
            r@ == Set::<K::V>::empty(),
    {
        let r = KeySet { members: Vec::new() };
        proof {
            assert(r@ =~= Set::<K::V>::empty());
        }
        r
    }

    /// The number of members.
    pub fn len(&self) -> (r: usize)
        requires
            self.wf(),
        ensures
            r == self@.len(),
    {
        proof {
            self.members@.map_values(|k: K| k@).unique_seq_to_set();
        }
        self.members.len()
    }

    /// Whether `key` is a member.
    pub fn contains(&self, key: &K) -> (r: bool)
        ensures
            r == self@.contains(key@),
    {
        let ghost views = self.members@.map_values(|k: K| k@);
        let mut i: usize = 0;
        while i < self.members.len()
            invariant
                i <= self.members.len(),
                views == self.members@.map_values(|k: K| k@),
                forall|j: int| 0 <= j < i ==> #[trigger] views[j] != key@,
            decreases self.members.len() - i,
        {
            if self.members[i].same(key) {
                proof {
                    assert(views[i as int] == key@);
                }
                return true;
            }
            proof {
                assert(views[i as int] == self.members@[i as int]@);
            }
            i += 1;
        }
        false
    }

    /// Makes `key` a member.
    pub fn insert(&mut self, key: K)
        requires
            old(self).wf(),
        ensures
            final(self).wf(),
            final(self)@ == old(self)@.insert(key@),
    {
        let ghost before = self.members@.map_values(|k: K| k@);
        let ghost k = key@;
        if self.contains(&key) {
            proof {
                assert(self@ =~= old(self)@.insert(k));
            }
        } else {
            self.members.push(key);
            proof {
                let after = self.members@.map_values(|k: K| k@);
                assert(after =~= before.push(k));
                assert(!before.contains(k));
                assert(after.to_set() =~= before.to_set().insert(k)) by {
                    assert forall|q: K::V| after.contains(q) == (before.contains(q) || q == k) by {
                        if before.contains(q) {
                            let i = choose|i: int| 0 <= i < before.len() && before[i] == q;
                            assert(after[i] == q);
                        }
                        if q == k {
                            assert(after[before.len() as int] == q);
                        }
                        if after.contains(q) {
                            let i = choose|i: int| 0 <= i < after.len() && after[i] == q;
                            if i < before.len() {
                                assert(before[i] == q);
                            }
                        }
                    }
                }
                assert forall|i: int, j: int|
                    0 <= i < after.len() && 0 <= j < after.len() && i != j implies after[i]
                    != after[j] by {
                    if i == before.len() {
                        assert(before[j] != k);
                    } else if j == before.len() {
                        assert(before[i] != k);
                    } else {
                        assert(before[i] != before[j]);
                    }
                }
            }
        }
    }
}

} // verus!
