//! Finite maps kept as lists of entries, looked up by the meaning of a key.
use crate::dup::Dup;
use crate::text::str_eq;
use vstd::prelude::*;

verus! {

/// A key that can be compared by what it denotes.
pub trait Key: DeepView + Sized {
    fn same(&self, other: &Self) -> (r: bool)
        ensures
            r == (self.deep_view() == other.deep_view()),
    ;
}

impl Key for String {
    fn same(&self, other: &Self) -> (r: bool) {
        str_eq(self.as_str(), other.as_str())
    }
}

impl Key for (String, String) {
    fn same(&self, other: &Self) -> (r: bool) {
        str_eq(self.0.as_str(), other.0.as_str()) && str_eq(self.1.as_str(), other.1.as_str())
    }
}

impl Key for (String, u16) {
    fn same(&self, other: &Self) -> (r: bool) {
        str_eq(self.0.as_str(), other.0.as_str()) && self.1 == other.1
    }
}

impl Key for (String, String, String) {
    fn same(&self, other: &Self) -> (r: bool) {
        str_eq(self.0.as_str(), other.0.as_str()) && str_eq(self.1.as_str(), other.1.as_str())
            && str_eq(self.2.as_str(), other.2.as_str())
    }
}

/// The map that a list of entries denotes: of two entries with one key, the
/// first counts.
pub open spec fn entries_map<K, V>(entries: Seq<(K, V)>) -> Map<K, V>
    decreases entries.len(),
{
    if entries.len() == 0 {
        Map::empty()
    } else {
        entries_map(entries.drop_first()).insert(entries.first().0, entries.first().1)
    }
}

/// A key is in the map exactly if it heads an entry.
pub proof fn lemma_entries_dom<K, V>(entries: Seq<(K, V)>, k: K)
    ensures
        entries_map(entries).dom().contains(k) <==> exists|i: int|
            0 <= i < entries.len() && (#[trigger] entries[i]).0 == k,
    decreases entries.len(),
{
    if entries.len() > 0 {
        let rest = entries.drop_first();
        lemma_entries_dom(rest, k);
        if entries_map(rest).dom().contains(k) {
            let i = choose|i: int| 0 <= i < rest.len() && (#[trigger] rest[i]).0 == k;
            assert(entries[i + 1].0 == k);
        }
        if exists|i: int| 0 <= i < entries.len() && (#[trigger] entries[i]).0 == k {
            let i = choose|i: int| 0 <= i < entries.len() && (#[trigger] entries[i]).0 == k;
            if i == 0 {
                assert(entries.first().0 == k);
            } else {
                assert(rest[i - 1].0 == k);
            }
        }
        if entries.first().0 == k {
            assert(entries[0].0 == k);
        }
    }
}

/// The first entry with a key gives its value.
pub proof fn lemma_entries_first<K, V>(entries: Seq<(K, V)>, i: int)
    requires
        0 <= i < entries.len(),
        forall|j: int| 0 <= j < i ==> (#[trigger] entries[j]).0 != entries[i].0,
    ensures
        entries_map(entries).dom().contains(entries[i].0),
        entries_map(entries)[entries[i].0] == entries[i].1,
    decreases entries.len(),
{
    if i > 0 {
        let rest = entries.drop_first();
        assert(entries[0].0 != entries[i].0);
        assert forall|j: int| 0 <= j < i - 1 implies (#[trigger] rest[j]).0 != rest[i - 1].0 by {
            assert(entries[j + 1].0 != entries[i].0);
        }
        lemma_entries_first(rest, i - 1);
    }
}

/// Rewriting the first entry of a key rewrites the map at that key.
pub proof fn lemma_entries_update<K, V>(entries: Seq<(K, V)>, i: int, v: V)
    requires
        0 <= i < entries.len(),
        forall|j: int| 0 <= j < i ==> (#[trigger] entries[j]).0 != entries[i].0,
    ensures
        entries_map(entries.update(i, (entries[i].0, v))) == entries_map(entries).insert(
            entries[i].0,
            v,
        ),
    decreases entries.len(),
{
    let e = entries.update(i, (entries[i].0, v));
    if i == 0 {
        assert(e.drop_first() =~= entries.drop_first());
        assert(entries_map(e) =~= entries_map(entries).insert(entries[i].0, v));
    } else {
        let rest = entries.drop_first();
        assert(entries[0].0 != entries[i].0);
        assert forall|j: int| 0 <= j < i - 1 implies (#[trigger] rest[j]).0 != rest[i - 1].0 by {
            assert(entries[j + 1].0 != entries[i].0);
        }
        lemma_entries_update(rest, i - 1, v);
        assert(e.drop_first() =~= rest.update(i - 1, (rest[i - 1].0, v)));
        assert(entries_map(e) =~= entries_map(entries).insert(entries[i].0, v));
    }
}

/// Appending an entry adds it where its key is new.
pub proof fn lemma_entries_push<K, V>(entries: Seq<(K, V)>, k: K, v: V)
    ensures
        entries_map(entries.push((k, v))) == if entries_map(entries).dom().contains(k) {
            entries_map(entries)
        } else {
            entries_map(entries).insert(k, v)
        },
    decreases entries.len(),
{
    let e = entries.push((k, v));
    if entries.len() == 0 {
        assert(e.drop_first() =~= entries);
        assert(entries_map(e.drop_first()) =~= Map::<K, V>::empty());
        assert(entries_map(e) =~= Map::<K, V>::empty().insert(k, v));
    } else {
        let rest = entries.drop_first();
        lemma_entries_push(rest, k, v);
        assert(e.drop_first() =~= rest.push((k, v)));
        if entries_map(entries).dom().contains(k) {
            assert(entries_map(e) =~= entries_map(entries));
        } else {
            assert(entries_map(e) =~= entries_map(entries).insert(k, v));
        }
    }
}

/// Entries with different keys denote the same map in any order.
pub proof fn lemma_entries_permuted<K, V>(x: Seq<(K, V)>, y: Seq<(K, V)>)
    requires
        x.to_multiset() == y.to_multiset(),
        forall|i: int, j: int| #![trigger x[i], x[j]] 0 <= i < j < x.len() ==> x[i].0 != x[j].0,
    ensures
        forall|i: int, j: int| #![trigger y[i], y[j]] 0 <= i < j < y.len() ==> y[i].0 != y[j].0,
        entries_map(x) == entries_map(y),
{
    broadcast use vstd::seq_lib::group_to_multiset_ensures;

    assert(x.no_duplicates());
    x.lemma_multiset_has_no_duplicates();
    y.lemma_multiset_has_no_duplicates_conv();
    assert forall|e: (K, V)| #[trigger] x.contains(e) == y.contains(e) by {
        assert(x.contains(e) <==> x.to_multiset().count(e) > 0);
        assert(y.contains(e) <==> y.to_multiset().count(e) > 0);
    }
    assert forall|i: int, j: int| #![trigger y[i], y[j]] 0 <= i < j < y.len() implies y[i].0
        != y[j].0 by {
        assert(y.contains(y[i]) && y.contains(y[j]));
        assert(x.contains(y[i]) && x.contains(y[j]));
        let k = choose|k: int| 0 <= k < x.len() && x[k] == y[i];
        let l = choose|l: int| 0 <= l < x.len() && x[l] == y[j];
        assert(y[i] != y[j]);
        assert(k < l || l < k);
    }
    let (m, n) = (entries_map(x), entries_map(y));
    assert forall|k: K| #[trigger] m.dom().contains(k) == n.dom().contains(k) by {
        lemma_entries_dom(x, k);
        lemma_entries_dom(y, k);
        if m.dom().contains(k) {
            let i = choose|i: int| 0 <= i < x.len() && (#[trigger] x[i]).0 == k;
            assert(x.contains(x[i]));
            let j = choose|j: int| 0 <= j < y.len() && y[j] == x[i];
            assert(y[j].0 == k);
        }
        if n.dom().contains(k) {
            let i = choose|i: int| 0 <= i < y.len() && (#[trigger] y[i]).0 == k;
            assert(y.contains(y[i]));
            assert(x.contains(y[i]));
            let j = choose|j: int| 0 <= j < x.len() && x[j] == y[i];
            assert(x[j].0 == k);
        }
    }
    assert forall|k: K| #[trigger] m.dom().contains(k) implies m[k] == n[k] by {
        lemma_entries_dom(x, k);
        let i = choose|i: int| 0 <= i < x.len() && (#[trigger] x[i]).0 == k;
        assert(x.contains(x[i]));
        let j = choose|j: int| 0 <= j < y.len() && y[j] == x[i];
        lemma_entries_first(x, i);
        lemma_entries_first(y, j);
    }
    assert(m =~= n);
}

/// A finite map with keys compared by meaning.
#[derive(Clone, Debug, Default, PartialEq, Eq)]
pub struct Table<K, V> {
    pub entries: Vec<(K, V)>,
}

impl<K: DeepView, V: DeepView> DeepView for Table<K, V> {
    type V = Map<K::V, V::V>;

    open spec fn deep_view(&self) -> Map<K::V, V::V> {
        entries_map(self.entries.deep_view())
    }
}

impl<K: Key, V: DeepView> Table<K, V> {
    /// No key heads two entries.
    pub open spec fn keys_unique(&self) -> bool {
        forall|i: int, j: int|
            #![trigger self.entries.deep_view()[i], self.entries.deep_view()[j]]
            0 <= i < j < self.entries.deep_view().len() ==> self.entries.deep_view()[i].0
                != self.entries.deep_view()[j].0
    }

    /// An empty table.
    pub fn new() -> (r: Self)
        ensures
            r.deep_view() == Map::<K::V, V::V>::empty(),
            r.keys_unique(),
            r.entries@.len() == 0,
    {
        let r = Table { entries: Vec::new() };
        assert(r.entries.deep_view() =~= Seq::<(K::V, V::V)>::empty());
        r
    }

    /// The position of the first entry with key `k`.
    fn position(&self, k: &K) -> (r: Option<usize>)
        ensures
            match r {
                Some(i) => {
                    &&& i < self.entries@.len()
                    &&& self.entries.deep_view()[i as int].0 == k.deep_view()
                    &&& self.deep_view().dom().contains(k.deep_view())
                    &&& self.deep_view()[k.deep_view()] == self.entries@[i as int].1.deep_view()
                    &&& forall|j: int|
                        0 <= j < i ==> (#[trigger] self.entries.deep_view()[j]).0 != k.deep_view()
                },
                None => {
                    &&& !self.deep_view().dom().contains(k.deep_view())
                    &&& forall|j: int|
                        0 <= j < self.entries@.len() ==> (#[trigger] self.entries.deep_view()[j]).0
                            != k.deep_view()
                },
            },
    {
        let mut i: usize = 0;
        while i < self.entries.len()
            invariant
                i <= self.entries@.len(),
                forall|j: int|
                    0 <= j < i ==> (#[trigger] self.entries.deep_view()[j]).0 != k.deep_view(),
            decreases self.entries.len() - i,
        {
            assert(self.entries.deep_view()[i as int].0 == self.entries@[i as int].0.deep_view());
            if self.entries[i].0.same(k) {
                proof {
                    lemma_entries_first(self.entries.deep_view(), i as int);
                }
                return Some(i);
            }
            i += 1;
        }
        proof {
            lemma_entries_dom(self.entries.deep_view(), k.deep_view());
        }
        None
    }

    /// The value of `k`, if it has one.
    pub fn get(&self, k: &K) -> (r: Option<&V>)
        ensures
            match r {
                Some(v) => self.deep_view().dom().contains(k.deep_view()) && self.deep_view()[
                k.deep_view()] == v.deep_view(),
                None => !self.deep_view().dom().contains(k.deep_view()),
            },
    {
        match self.position(k) {
            Some(i) => Some(&self.entries[i].1),
            None => None,
        }
    }

    /// Whether `k` has a value.
    pub fn contains_key(&self, k: &K) -> (r: bool)
        ensures
            r == self.deep_view().dom().contains(k.deep_view()),
    {
        match self.position(k) {
            Some(_) => true,
            None => false,
        }
    }

    /// Gives `k` the value `v`, in place of any it had.
    pub fn insert(&mut self, k: K, v: V)
        ensures
            final(self).deep_view() == old(self).deep_view().insert(k.deep_view(), v.deep_view()),
            old(self).keys_unique() ==> final(self).keys_unique(),
    {
        let p = self.position(&k);
        let ghost before = self.entries.deep_view();
        match p {
            Some(i) => {
                self.entries.set(i, (k, v));
                proof {
                    lemma_entries_update(before, i as int, v.deep_view());
                    assert(self.entries.deep_view() =~= before.update(
                        i as int,
                        (k.deep_view(), v.deep_view()),
                    ));
                }
            },
            None => {
                self.entries.push((k, v));
                proof {
                    lemma_entries_push(before, k.deep_view(), v.deep_view());
                    assert(self.entries.deep_view() =~= before.push((k.deep_view(), v.deep_view())));
                }
            },
        }
    }
}

/// The map that results from inserting the entries in order.
pub open spec fn insert_all<K, V>(entries: Seq<(K, V)>) -> Map<K, V>
    decreases entries.len(),
{
    if entries.len() == 0 {
        Map::empty()
    } else {
        insert_all(entries.drop_last()).insert(entries.last().0, entries.last().1)
    }
}

/// The keys of the map are those of the entries.
pub proof fn lemma_insert_all_dom<K, V>(entries: Seq<(K, V)>, k: K)
    ensures
        insert_all(entries).dom().contains(k) <==> exists|i: int|
            0 <= i < entries.len() && (#[trigger] entries[i]).0 == k,
    decreases entries.len(),
{
    if entries.len() > 0 {
        let init = entries.drop_last();
        lemma_insert_all_dom(init, k);
        assert(entries[entries.len() - 1] == entries.last());
        assert(forall|i: int| 0 <= i < init.len() ==> #[trigger] init[i] == entries[i]);
        if exists|i: int| 0 <= i < entries.len() && (#[trigger] entries[i]).0 == k {
            let i = choose|i: int| 0 <= i < entries.len() && (#[trigger] entries[i]).0 == k;
            if i < init.len() {
                assert(init[i].0 == k);
            }
        }
        if exists|i: int| 0 <= i < init.len() && (#[trigger] init[i]).0 == k {
            let i = choose|i: int| 0 <= i < init.len() && (#[trigger] init[i]).0 == k;
            assert(entries[i].0 == k);
        }
    }
}

/// The values of each key, in the order of the entries.
pub open spec fn group_all<K, V>(entries: Seq<(K, V)>) -> Map<K, Seq<V>>
    decreases entries.len(),
{
    if entries.len() == 0 {
        Map::empty()
    } else {
        let rest = group_all(entries.drop_last());
        let (k, v) = entries.last();
        rest.insert(
            k,
            if rest.dom().contains(k) {
                rest[k].push(v)
            } else {
                seq![v]
            },
        )
    }
}

/// The table that results from inserting the entries in order.
pub fn table_of<K: Key + Dup, V: Dup>(entries: &Vec<(K, V)>) -> (r: Table<K, V>)
    ensures
        r.deep_view() == insert_all(entries.deep_view()),
        r.keys_unique(),
{
    let mut t: Table<K, V> = Table::new();
    let ghost s = entries.deep_view();
    let mut i: usize = 0;
    assert(s.take(0) =~= Seq::empty());
    while i < entries.len()
        invariant
            i <= entries.len(),
            s == entries.deep_view(),
            t.deep_view() == insert_all(s.take(i as int)),
            t.keys_unique(),
        decreases entries.len() - i,
    {
        proof {
            assert(s.take(i + 1).drop_last() =~= s.take(i as int));
            assert(s.take(i + 1).last() == entries@[i as int].deep_view());
        }
        t.insert(entries[i].0.dup(), entries[i].1.dup());
        i += 1;
    }
    assert(s.take(s.len() as int) =~= s);
    t
}

/// The table of the values of each key, in the order of the entries.
pub fn group_of<K: Key + Dup, V: Dup>(entries: &Vec<(K, V)>) -> (r: Table<K, Vec<V>>)
    ensures
        r.deep_view() == group_all(entries.deep_view()),
        r.keys_unique(),
{
    let mut t: Table<K, Vec<V>> = Table::new();
    let ghost s = entries.deep_view();
    let mut i: usize = 0;
    assert(s.take(0) =~= Seq::empty());
    while i < entries.len()
        invariant
            i <= entries.len(),
            s == entries.deep_view(),
            t.deep_view() == group_all(s.take(i as int)),
            t.keys_unique(),
        decreases entries.len() - i,
    {
        proof {
            assert(s.take(i + 1).drop_last() =~= s.take(i as int));
            assert(s.take(i + 1).last() == entries@[i as int].deep_view());
        }
        let k = &entries[i].0;
        let mut list: Vec<V> = match t.get(k) {
            Some(l) => l.dup(),
            None => Vec::new(),
        };
        let ghost before = list.deep_view();
        list.push(entries[i].1.dup());
        proof {
            let v = s[i as int].1;
            assert(list.deep_view() =~= before.push(v));
            if !t.deep_view().dom().contains(k.deep_view()) {
                assert(list.deep_view() =~= seq![v]);
            }
        }
        t.insert(k.dup(), list);
        i += 1;
    }
    assert(s.take(s.len() as int) =~= s);
    t
}

/// Inserting the entries of a table one by one adds its map.
proof fn lemma_extend_step<K, V>(
    base: Map<K, V>,
    m: Map<K, V>,
    entries: Seq<(K, V)>,
    i: int,
)
    requires
        0 <= i < entries.len(),
        m == entries_map(entries),
    ensures
        m.dom().contains(entries[i].0),
        base.union_prefer_right(m.restrict(keys_before(entries, i))).insert(
            entries[i].0,
            m[entries[i].0],
        ) == base.union_prefer_right(m.restrict(keys_before(entries, i + 1))),
{
    lemma_entries_dom(entries, entries[i].0);
    lemma_keys_before_step(entries, i);
    let a = base.union_prefer_right(m.restrict(keys_before(entries, i))).insert(
        entries[i].0,
        m[entries[i].0],
    );
    let b = base.union_prefer_right(m.restrict(keys_before(entries, i + 1)));
    assert(a =~= b);
}

/// One entry more has its key more.
pub proof fn lemma_keys_before_step<K, V>(entries: Seq<(K, V)>, i: int)
    requires
        0 <= i < entries.len(),
    ensures
        keys_before(entries, i + 1) == keys_before(entries, i).insert(entries[i].0),
{
    assert forall|k: K| #[trigger] keys_before(entries, i + 1).contains(k) == keys_before(
        entries,
        i,
    ).insert(entries[i].0).contains(k) by {
        if keys_before(entries, i + 1).contains(k) {
            let j = choose|j: int| 0 <= j < i + 1 && (#[trigger] entries[j]).0 == k;
            if j < i {
                assert(entries[j].0 == k);
            }
        }
        if keys_before(entries, i).contains(k) {
            let j = choose|j: int| 0 <= j < i && (#[trigger] entries[j]).0 == k;
            assert(entries[j].0 == k);
        }
        assert(entries[i].0 == entries[i].0);
    }
    assert(keys_before(entries, i + 1) =~= keys_before(entries, i).insert(entries[i].0));
}

/// The keys of the first `n` entries.
pub open spec fn keys_before<K, V>(entries: Seq<(K, V)>, n: int) -> Set<K> {
    Set::new(|k: K| exists|j: int| 0 <= j < n && (#[trigger] entries[j]).0 == k)
}

impl<K: Key + Dup, V: Dup> Table<K, V> {
    /// Adds the entries of `other`; where both have a key, that of `other`
    /// counts.
    pub fn extend_from(&mut self, other: &Table<K, V>)
        ensures
            final(self).deep_view() == old(self).deep_view().union_prefer_right(other.deep_view()),
            old(self).keys_unique() ==> final(self).keys_unique(),
    {
        let ghost base = self.deep_view();
        let ghost unique = self.keys_unique();
        let ghost e = other.entries.deep_view();
        let ghost m = other.deep_view();
        let mut i: usize = 0;
        proof {
            assert(base.union_prefer_right(m.restrict(keys_before(e, 0))) =~= base);
        }
        while i < other.entries.len()
            invariant
                i <= other.entries.len(),
                e == other.entries.deep_view(),
                m == other.deep_view(),
                self.deep_view() == base.union_prefer_right(m.restrict(keys_before(e, i as int))),
                unique ==> self.keys_unique(),
            decreases other.entries.len() - i,
        {
            let k = &other.entries[i].0;
            proof {
                assert(e[i as int].0 == k.deep_view());
                lemma_extend_step(base, m, e, i as int);
            }
            if let Some(v) = other.get(k) {
                self.insert(k.dup(), v.dup());
            }
            i += 1;
        }
        proof {
            assert forall|k: K::V| #[trigger] m.dom().contains(k) implies keys_before(
                e,
                e.len() as int,
            ).contains(k) by {
                lemma_entries_dom(e, k);
            }
            assert(m.restrict(keys_before(e, e.len() as int)) =~= m);
        }
    }
}

/// Entries are put in one by one: a later one counts in place of an earlier one
/// with its key, and leaves all other keys alone.
pub proof fn law_later_entries_count<K, V>(entries: Seq<(K, V)>, k: K, v: V)
    ensures
        insert_all(Seq::<(K, V)>::empty()) == Map::<K, V>::empty(),
        insert_all(entries.push((k, v))) == insert_all(entries).insert(k, v),
{
    assert(entries.push((k, v)).drop_last() =~= entries);
}

/// Values are gathered one by one: each joins those of its key, at their end,
/// and leaves all other keys alone.
pub proof fn law_values_gather_by_key<K, V>(entries: Seq<(K, V)>, k: K, v: V)
    ensures
        group_all(Seq::<(K, V)>::empty()) == Map::<K, Seq<V>>::empty(),
        group_all(entries.push((k, v))).dom() == group_all(entries).dom().insert(k),
        group_all(entries).dom().contains(k) ==> group_all(entries.push((k, v)))[k] == group_all(
            entries,
        )[k].push(v),
        !group_all(entries).dom().contains(k) ==> group_all(entries.push((k, v)))[k] == seq![v],
        forall|q: K|
            q != k && group_all(entries).dom().contains(q) ==> #[trigger] group_all(
                entries.push((k, v)),
            )[q] == group_all(entries)[q],
{
    assert(entries.push((k, v)).drop_last() =~= entries);
}

/// A list of entries denotes a map by the first entry of each key.
pub proof fn law_first_entries_count<K, V>(entries: Seq<(K, V)>, k: K, v: V)
    ensures
        entries_map(Seq::<(K, V)>::empty()) == Map::<K, V>::empty(),
        entries_map(seq![(k, v)] + entries) == entries_map(entries).insert(k, v),
{
    assert((seq![(k, v)] + entries).drop_first() =~= entries);
}

/// The value of a key is that of the last entry with it.
pub proof fn lemma_insert_all_last<K, V>(entries: Seq<(K, V)>, i: int)
    requires
        0 <= i < entries.len(),
        forall|j: int| i < j < entries.len() ==> (#[trigger] entries[j]).0 != entries[i].0,
    ensures
        insert_all(entries).dom().contains(entries[i].0),
        insert_all(entries)[entries[i].0] == entries[i].1,
    decreases entries.len(),
{
    if i < entries.len() - 1 {
        let init = entries.drop_last();
        assert(entries[entries.len() - 1].0 != entries[i].0);
        assert forall|j: int| i < j < init.len() implies (#[trigger] init[j]).0 != init[i].0 by {
            assert(entries[j].0 != entries[i].0);
        }
        lemma_insert_all_last(init, i);
    }
}

/// A key that is in the map has a last entry.
pub proof fn lemma_insert_all_value<K, V>(entries: Seq<(K, V)>, k: K) -> (i: int)
    requires
        insert_all(entries).dom().contains(k),
    ensures
        0 <= i < entries.len(),
        entries[i].0 == k,
        insert_all(entries)[k] == entries[i].1,
        forall|j: int| i < j < entries.len() ==> (#[trigger] entries[j]).0 != k,
    decreases entries.len(),
{
    if entries.last().0 == k {
        entries.len() - 1
    } else {
        let init = entries.drop_last();
        let i = lemma_insert_all_value(init, k);
        assert(init[i] == entries[i]);
        assert forall|j: int| i < j < entries.len() implies (#[trigger] entries[j]).0 != k by {
            if j < init.len() {
                assert(init[j].0 != k);
            }
        }
        i
    }
}

} // verus!
