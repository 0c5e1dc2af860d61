//! Element-wise operations on vectors.
use crate::dup::Dup;
use crate::table::Key;
use vstd::prelude::*;

verus! {

/// The images of the elements under `f`, where `g` says what `f` does.
pub(crate) fn map_vec<T: DeepView, U: DeepView, F: Fn(&T) -> U>(
    v: &Vec<T>,
    f: F,
    Ghost(g): Ghost<spec_fn(T::V) -> U::V>,
) -> (r: Vec<U>)
    requires
        forall|x: &T| f.requires((x,)),
        forall|x: &T, y: U| f.ensures((x,), y) ==> y.deep_view() == g(x.deep_view()),
    ensures
        r.deep_view() == v.deep_view().map_values(g),
{
    let mut out: Vec<U> = Vec::new();
    let mut i: usize = 0;
    while i < v.len()
        invariant
            i <= v.len(),
            out@.len() == i,
            forall|x: &T| f.requires((x,)),
            forall|x: &T, y: U| f.ensures((x,), y) ==> y.deep_view() == g(x.deep_view()),
            forall|j: int| 0 <= j < i ==> (#[trigger] out@[j]).deep_view() == g(v@[j].deep_view()),
        decreases v.len() - i,
    {
        out.push(f(&v[i]));
        i += 1;
    }
    assert(out.deep_view() =~= v.deep_view().map_values(g));
    out
}

/// The images of the elements under `f`, where it gives one.
pub(crate) fn filter_map_vec<T: DeepView, U: DeepView, F: Fn(&T) -> Option<U>>(
    v: &Vec<T>,
    f: F,
    Ghost(g): Ghost<spec_fn(T::V) -> Option<U::V>>,
) -> (r: Vec<U>)
    requires
        forall|x: &T| f.requires((x,)),
        forall|x: &T, y: Option<U>| f.ensures((x,), y) ==> y.deep_view() == g(x.deep_view()),
    ensures
        r.deep_view() == v.deep_view().filter_map(g),
{
    let mut out: Vec<U> = Vec::new();
    let ghost s = v.deep_view();
    let mut i: usize = 0;
    assert(out.deep_view() =~= s.take(0).filter_map(g));
    while i < v.len()
        invariant
            i <= v.len(),
            s == v.deep_view(),
            forall|x: &T| f.requires((x,)),
            forall|x: &T, y: Option<U>| f.ensures((x,), y) ==> y.deep_view() == g(x.deep_view()),
            out.deep_view() == s.take(i as int).filter_map(g),
        decreases v.len() - i,
    {
        let ghost before = out.deep_view();
        proof {
            assert(s.take(i + 1).drop_last() =~= s.take(i as int));
            assert(s.take(i + 1).last() == v@[i as int].deep_view());
        }
        let o = f(&v[i]);
        match o {
            Some(u) => {
                out.push(u);
                assert(out.deep_view() =~= before + seq![u.deep_view()]);
            },
            None => {},
        }
        i += 1;
    }
    assert(s.take(s.len() as int) =~= s);
    out
}

/// Copies of the elements that `f` keeps.
pub(crate) fn filter_vec<T: Dup, F: Fn(&T) -> bool>(
    v: &Vec<T>,
    f: F,
    Ghost(g): Ghost<spec_fn(T::V) -> bool>,
) -> (r: Vec<T>)
    requires
        forall|x: &T| f.requires((x,)),
        forall|x: &T, y: bool| f.ensures((x,), y) ==> y == g(x.deep_view()),
    ensures
        r.deep_view() == v.deep_view().filter(g),
{
    let mut out: Vec<T> = Vec::new();
    let ghost s = v.deep_view();
    let mut i: usize = 0;
    proof {
        reveal(Seq::filter);
        assert(out.deep_view() =~= s.take(0).filter(g));
    }
    while i < v.len()
        invariant
            i <= v.len(),
            s == v.deep_view(),
            forall|x: &T| f.requires((x,)),
            forall|x: &T, y: bool| f.ensures((x,), y) ==> y == g(x.deep_view()),
            out.deep_view() == s.take(i as int).filter(g),
        decreases v.len() - i,
    {
        let ghost before = out.deep_view();
        proof {
            reveal(Seq::filter);
            assert(s.take(i + 1).drop_last() =~= s.take(i as int));
            assert(s.take(i + 1).last() == v@[i as int].deep_view());
        }
        if f(&v[i]) {
            out.push(v[i].dup());
            assert(out.deep_view() =~= before.push(s[i as int]));
        }
        i += 1;
    }
    assert(s.take(s.len() as int) =~= s);
    out
}

/// Whether a key is among the elements.
pub fn contains_same<K: Key>(v: &Vec<K>, k: &K) -> (r: bool)
    ensures
        r == v.deep_view().contains(k.deep_view()),
{
    let mut i: usize = 0;
    while i < v.len()
        invariant
            i <= v.len(),
            forall|j: int| 0 <= j < i ==> (#[trigger] v.deep_view()[j]) != k.deep_view(),
        decreases v.len() - i,
    {
        assert(v.deep_view()[i as int] == v@[i as int].deep_view());
        if v[i].same(k) {
            return true;
        }
        i += 1;
    }
    false
}

/// The images of the elements under `f`, one after the other.
pub(crate) fn flat_map_vec<T: DeepView, U: DeepView, F: Fn(&T) -> Vec<U>>(
    v: &Vec<T>,
    f: F,
    Ghost(g): Ghost<spec_fn(T::V) -> Seq<U::V>>,
) -> (r: Vec<U>)
    requires
        forall|x: &T| f.requires((x,)),
        forall|x: &T, y: Vec<U>| f.ensures((x,), y) ==> y.deep_view() == g(x.deep_view()),
    ensures
        r.deep_view() == v.deep_view().flat_map(g),
{
    let mut out: Vec<U> = Vec::new();
    let ghost s = v.deep_view();
    let mut i: usize = 0;
    proof {
        reveal_with_fuel(Seq::flatten, 2);
        assert(s.take(0).map_values(g) =~= Seq::empty());
        assert(out.deep_view() =~= s.take(0).flat_map(g));
    }
    while i < v.len()
        invariant
            i <= v.len(),
            s == v.deep_view(),
            forall|x: &T| f.requires((x,)),
            forall|x: &T, y: Vec<U>| f.ensures((x,), y) ==> y.deep_view() == g(x.deep_view()),
            out.deep_view() == s.take(i as int).flat_map(g),
        decreases v.len() - i,
    {
        let ghost before = out.deep_view();
        proof {
            s.take(i as int).lemma_flat_map_push(g, s[i as int]);
            assert(s.take(i as int).push(s[i as int]) =~= s.take(i + 1));
        }
        let mut part = f(&v[i]);
        let ghost added = part.deep_view();
        out.append(&mut part);
        assert(out.deep_view() =~= before + added);
        i += 1;
    }
    assert(s.take(s.len() as int) =~= s);
    out
}

/// What one element maps to is in the flattened list.
pub proof fn lemma_flat_map_contains<A, B>(s: Seq<A>, f: spec_fn(A) -> Seq<B>, i: int, x: B)
    requires
        0 <= i < s.len(),
        f(s[i]).contains(x),
    ensures
        s.flat_map(f).contains(x),
    decreases s.len(),
{
    let init = s.drop_last();
    init.lemma_flat_map_push(f, s.last());
    assert(init.push(s.last()) =~= s);
    let a = init.flat_map(f);
    let b = f(s.last());
    assert(s.flat_map(f) =~= a + b);
    if i == s.len() - 1 {
        let k = choose|k: int| 0 <= k < b.len() && b[k] == x;
        assert((a + b)[a.len() + k] == x);
    } else {
        assert(init[i] == s[i]);
        lemma_flat_map_contains(init, f, i, x);
        let k = choose|k: int| 0 <= k < a.len() && a[k] == x;
        assert((a + b)[k] == x);
    }
}

/// What is in a flattened list comes from one of the elements.
pub proof fn lemma_flat_map_origin<A, B>(s: Seq<A>, f: spec_fn(A) -> Seq<B>, x: B) -> (i: int)
    requires
        s.flat_map(f).contains(x),
    ensures
        0 <= i < s.len(),
        f(s[i]).contains(x),
    decreases s.len(),
{
    if s.len() == 0 {
        reveal_with_fuel(Seq::flatten, 2);
        assert(s.map_values(f) =~= Seq::empty());
        0
    } else {
        let init = s.drop_last();
        init.lemma_flat_map_push(f, s.last());
        assert(init.push(s.last()) =~= s);
        let a = init.flat_map(f);
        let b = f(s.last());
        assert(s.flat_map(f) =~= a + b);
        let k = choose|k: int| 0 <= k < (a + b).len() && (a + b)[k] == x;
        if k < a.len() {
            assert(a[k] == x);
            let i = lemma_flat_map_origin(init, f, x);
            assert(init[i] == s[i]);
            i
        } else {
            assert(b[k - a.len()] == x);
            s.len() - 1
        }
    }
}

/// What an element maps to is in the mapped list.
pub proof fn lemma_filter_map_contains<A, B>(s: Seq<A>, f: spec_fn(A) -> Option<B>, a: A, b: B)
    requires
        s.contains(a),
        f(a) == Some(b),
    ensures
        s.filter_map(f).contains(b),
    decreases s.len(),
{
    let init = s.drop_last();
    let rest = init.filter_map(f);
    if s.last() == a {
        assert(s.filter_map(f) == rest + seq![b]);
        assert(s.filter_map(f)[rest.len() as int] == b);
    } else {
        let j = choose|j: int| 0 <= j < s.len() && s[j] == a;
        assert(init[j] == a);
        lemma_filter_map_contains(init, f, a, b);
        let k = choose|k: int| 0 <= k < rest.len() && rest[k] == b;
        assert(s.filter_map(f)[k] == b);
    }
}

/// What is in a mapped list comes from one of the elements.
pub proof fn lemma_filter_map_origin<A, B>(s: Seq<A>, f: spec_fn(A) -> Option<B>, b: B) -> (i: int)
    requires
        s.filter_map(f).contains(b),
    ensures
        0 <= i < s.len(),
        f(s[i]) == Some(b),
    decreases s.len(),
{
    if s.len() == 0 {
        0
    } else {
        let init = s.drop_last();
        let rest = init.filter_map(f);
        let all = s.filter_map(f);
        if f(s.last()) == Some(b) {
            s.len() - 1
        } else {
            let k = choose|k: int| 0 <= k < all.len() && all[k] == b;
            match f(s.last()) {
                Some(c) => {
                    assert(all == rest + seq![c]);
                    assert(k < rest.len());
                },
                None => {
                    assert(all == rest);
                },
            }
            assert(rest[k] == b);
            let i = lemma_filter_map_origin(init, f, b);
            assert(init[i] == s[i]);
            i
        }
    }
}

/// Mapping and filtering two lists one after the other does it to both.
pub proof fn lemma_filter_map_adds<A, B>(a: Seq<A>, b: Seq<A>, f: spec_fn(A) -> Option<B>)
    ensures
        (a + b).filter_map(f) == a.filter_map(f) + b.filter_map(f),
    decreases b.len(),
{
    reveal_with_fuel(Seq::filter_map, 2);
    if b.len() == 0 {
        assert(a + b =~= a);
        assert(a.filter_map(f) + b.filter_map(f) =~= a.filter_map(f));
    } else {
        lemma_filter_map_adds(a, b.drop_last(), f);
        assert((a + b).drop_last() =~= a + b.drop_last());
        assert((a + b).last() == b.last());
        assert((a + b).filter_map(f) =~= a.filter_map(f) + b.filter_map(f));
    }
}

} // verus!
