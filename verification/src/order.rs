//! The order of texts by their bytes, and sorting.
use crate::text;
use vstd::prelude::*;
use vstd::relations::*;
use vstd::seq_lib::*;
use vstd::utf8::*;

verus! {

/// Whether `a` comes before `b` or is `b`, in the order of bytes.
pub open spec fn bytes_le(a: Seq<u8>, b: Seq<u8>) -> bool
    decreases a.len(),
{
    if a.len() == 0 {
        true
    } else if b.len() == 0 {
        false
    } else if a[0] == b[0] {
        bytes_le(a.drop_first(), b.drop_first())
    } else {
        a[0] < b[0]
    }
}

/// Whether `a` comes before `b` or is `b`, in the order of their UTF-8 bytes.
pub open spec fn text_le(a: Seq<char>, b: Seq<char>) -> bool {
    bytes_le(encode_utf8(a), encode_utf8(b))
}

proof fn lemma_bytes_le_total(a: Seq<u8>, b: Seq<u8>)
    ensures
        bytes_le(a, b) || bytes_le(b, a),
    decreases a.len(),
{
    if a.len() > 0 && b.len() > 0 && a[0] == b[0] {
        lemma_bytes_le_total(a.drop_first(), b.drop_first());
    }
}

proof fn lemma_bytes_le_antisymmetric(a: Seq<u8>, b: Seq<u8>)
    requires
        bytes_le(a, b),
        bytes_le(b, a),
    ensures
        a == b,
    decreases a.len(),
{
    if a.len() > 0 && b.len() > 0 {
        lemma_bytes_le_antisymmetric(a.drop_first(), b.drop_first());
        assert(a =~= seq![a[0]] + a.drop_first());
        assert(b =~= seq![b[0]] + b.drop_first());
    } else {
        assert(a =~= b);
    }
}

proof fn lemma_bytes_le_transitive(a: Seq<u8>, b: Seq<u8>, c: Seq<u8>)
    requires
        bytes_le(a, b),
        bytes_le(b, c),
    ensures
        bytes_le(a, c),
    decreases a.len(),
{
    if a.len() > 0 && b.len() > 0 && c.len() > 0 && a[0] == b[0] && b[0] == c[0] {
        lemma_bytes_le_transitive(a.drop_first(), b.drop_first(), c.drop_first());
    }
}

/// The order of texts is total.
pub proof fn lemma_text_le_total_ordering()
    ensures
        total_ordering(|a: Seq<char>, b: Seq<char>| text_le(a, b)),
{
    let le = |a: Seq<char>, b: Seq<char>| text_le(a, b);
    assert forall|a: Seq<char>| #[trigger] le(a, a) by {
        lemma_bytes_le_total(encode_utf8(a), encode_utf8(a));
    }
    assert forall|a: Seq<char>, b: Seq<char>| #[trigger] le(a, b) && #[trigger] le(b, a) implies a
        == b by {
        lemma_bytes_le_antisymmetric(encode_utf8(a), encode_utf8(b));
        text::lemma_bytes_determine_text(a, b);
    }
    assert forall|a: Seq<char>, b: Seq<char>, c: Seq<char>| #[trigger]
        le(a, b) && #[trigger] le(b, c) implies le(a, c) by {
        lemma_bytes_le_transitive(encode_utf8(a), encode_utf8(b), encode_utf8(c));
    }
    assert forall|a: Seq<char>, b: Seq<char>| #[trigger] le(a, b) || #[trigger] le(b, a) by {
        lemma_bytes_le_total(encode_utf8(a), encode_utf8(b));
    }
}

fn bytes_at_most(x: &[u8], y: &[u8]) -> (r: bool)
    ensures
        r == bytes_le(x@, y@),
{
    let mut i: usize = 0;
    assert(x@.skip(0) =~= x@);
    assert(y@.skip(0) =~= y@);
    while i < x.len() && i < y.len()
        invariant
            i <= x@.len(),
            i <= y@.len(),
            bytes_le(x@, y@) == bytes_le(x@.skip(i as int), y@.skip(i as int)),
        decreases x.len() - i,
    {
        proof {
            assert(x@.skip(i as int)[0] == x@[i as int]);
            assert(y@.skip(i as int)[0] == y@[i as int]);
            assert(x@.skip(i as int).drop_first() =~= x@.skip(i + 1));
            assert(y@.skip(i as int).drop_first() =~= y@.skip(i + 1));
        }
        if x[i] != y[i] {
            return x[i] < y[i];
        }
        i += 1;
    }
    i == x.len()
}

/// Whether `a` comes before `b` or is `b`.
pub fn str_le(a: &str, b: &str) -> (r: bool)
    ensures
        r == text_le(a@, b@),
{
    bytes_at_most(a.as_bytes(), b.as_bytes())
}

/// A type with an order to sort by.
pub trait Ranked: DeepView + Sized {
    spec fn spec_le(a: Self::V, b: Self::V) -> bool;

    fn at_most(&self, other: &Self) -> (r: bool)
        ensures
            r == Self::spec_le(self.deep_view(), other.deep_view()),
    ;
}

impl Ranked for String {
    open spec fn spec_le(a: Seq<char>, b: Seq<char>) -> bool {
        text_le(a, b)
    }

    fn at_most(&self, other: &Self) -> (r: bool) {
        str_le(self.as_str(), other.as_str())
    }
}

/// A sorted list with `x` put in front of everything that it is at most.
pub open spec fn insert_sorted<T: Ranked>(s: Seq<T::V>, x: T::V) -> Seq<T::V>
    decreases s.len(),
{
    if s.len() == 0 {
        seq![x]
    } else if !T::spec_le(x, s.last()) {
        s.push(x)
    } else {
        insert_sorted::<T>(s.drop_last(), x).push(s.last())
    }
}

/// The elements of a list in order. Elements of the same rank stay as they
/// were.
pub open spec fn sort_seq<T: Ranked>(s: Seq<T::V>) -> Seq<T::V>
    decreases s.len(),
{
    if s.len() == 0 {
        Seq::empty()
    } else {
        insert_sorted::<T>(sort_seq::<T>(s.drop_first()), s.first())
    }
}

fn insert_in_order<T: Ranked>(out: &mut Vec<T>, x: T)
    ensures
        final(out).deep_view() == insert_sorted::<T>(old(out).deep_view(), x.deep_view()),
{
    let ghost s = out.deep_view();
    let ghost v = x.deep_view();
    let mut i: usize = out.len();
    assert(s.take(s.len() as int) =~= s);
    assert(insert_sorted::<T>(s, v) =~= insert_sorted::<T>(s.take(i as int), v) + s.skip(i as int));
    while i > 0 && x.at_most(&out[i - 1])
        invariant
            i <= out@.len(),
            s == out.deep_view(),
            v == x.deep_view(),
            insert_sorted::<T>(s, v) == insert_sorted::<T>(s.take(i as int), v) + s.skip(i as int),
        decreases i,
    {
        proof {
            let t = s.take(i as int);
            assert(t.last() == s[i - 1]);
            assert(t.drop_last() =~= s.take(i - 1));
            assert(insert_sorted::<T>(t, v) + s.skip(i as int) =~= insert_sorted::<T>(
                s.take(i - 1),
                v,
            ) + s.skip(i - 1));
        }
        i -= 1;
    }
    proof {
        let t = s.take(i as int);
        if i > 0 {
            assert(t.last() == s[i - 1]);
        }
        assert(insert_sorted::<T>(t, v) =~= t.push(v));
    }
    out.insert(i, x);
    assert(out.deep_view() =~= s.take(i as int).push(v) + s.skip(i as int));
}

/// The elements in order.
pub fn sort_vec<T: Ranked>(v: Vec<T>) -> (r: Vec<T>)
    ensures
        r.deep_view() == sort_seq::<T>(v.deep_view()),
{
    let ghost s = v.deep_view();
    let mut rest = v;
    let mut out: Vec<T> = Vec::new();
    assert(s.skip(s.len() as int) =~= Seq::empty());
    assert(out.deep_view() =~= sort_seq::<T>(s.skip(s.len() as int)));
    assert(rest.deep_view() =~= s.take(s.len() as int));
    while rest.len() > 0
        invariant
            rest@.len() <= s.len(),
            rest.deep_view() == s.take(rest@.len() as int),
            out.deep_view() == sort_seq::<T>(s.skip(rest@.len() as int)),
        decreases rest.len(),
    {
        let ghost n = rest@.len();
        let ghost before = rest.deep_view();
        match rest.pop() {
            Some(x) => {
                proof {
                    assert(x.deep_view() == before[n - 1]);
                    assert(x.deep_view() == s[n - 1]);
                    assert(s.skip(n - 1).first() == s[n - 1]);
                    assert(s.skip(n - 1).drop_first() =~= s.skip(n as int));
                    assert(rest.deep_view() =~= s.take(n - 1));
                }
                insert_in_order(&mut out, x);
            },
            None => {},
        }
    }
    assert(s.skip(0) =~= s);
    out
}

proof fn lemma_insert_multiset<T: Ranked>(s: Seq<T::V>, x: T::V)
    ensures
        insert_sorted::<T>(s, x).to_multiset() == s.to_multiset().insert(x),
    decreases s.len(),
{
    broadcast use group_to_multiset_ensures;

    if s.len() == 0 {
        assert(seq![x] =~= s.push(x));
    } else if T::spec_le(x, s.last()) {
        let init = s.drop_last();
        lemma_insert_multiset::<T>(init, x);
        assert(init.push(s.last()) =~= s);
        assert(insert_sorted::<T>(s, x).to_multiset() =~= s.to_multiset().insert(x));
    }
}

/// Sorting keeps the elements.
pub proof fn lemma_sort_multiset<T: Ranked>(s: Seq<T::V>)
    ensures
        sort_seq::<T>(s).to_multiset() == s.to_multiset(),
    decreases s.len(),
{
    broadcast use group_to_multiset_ensures;

    if s.len() == 0 {
        assert(s =~= Seq::empty());
    } else {
        let rest = s.drop_first();
        lemma_sort_multiset::<T>(rest);
        lemma_insert_multiset::<T>(sort_seq::<T>(rest), s.first());
        assert(s.remove(0) =~= rest);
        assert(s.contains(s[0]));
        assert(sort_seq::<T>(s).to_multiset() =~= s.to_multiset());
    }
}

proof fn lemma_insert_sorted<T: Ranked>(s: Seq<T::V>, x: T::V)
    requires
        transitive(|a: T::V, b: T::V| T::spec_le(a, b)),
        strongly_connected(|a: T::V, b: T::V| T::spec_le(a, b)),
        sorted_by(s, |a: T::V, b: T::V| T::spec_le(a, b)),
    ensures
        sorted_by(insert_sorted::<T>(s, x), |a: T::V, b: T::V| T::spec_le(a, b)),
        forall|i: int|
            0 <= i < insert_sorted::<T>(s, x).len() ==> #[trigger] insert_sorted::<T>(s, x)[i] == x
                || s.contains(insert_sorted::<T>(s, x)[i]),
    decreases s.len(),
{
    let le = |a: T::V, b: T::V| T::spec_le(a, b);
    let r = insert_sorted::<T>(s, x);
    if s.len() == 0 {
    } else if !T::spec_le(x, s.last()) {
        assert(le(s.last(), x) || le(x, s.last()));
        assert forall|i: int, j: int| 0 <= i < j < r.len() implies #[trigger] le(r[i], r[j]) by {
            if j == s.len() {
                if i < s.len() - 1 {
                    assert(le(s[i], s[s.len() - 1]));
                }
                assert(le(s[s.len() - 1], x));
                if i < s.len() - 1 {
                    assert(le(s[i], x));
                }
            } else {
                assert(le(s[i], s[j]));
            }
        }
        assert forall|i: int| 0 <= i < r.len() implies #[trigger] r[i] == x || s.contains(r[i]) by {
            if i < s.len() {
                assert(s[i] == r[i]);
            }
        }
    } else {
        let init = s.drop_last();
        assert forall|i: int, j: int| 0 <= i < j < init.len() implies #[trigger] le(
            init[i],
            init[j],
        ) by {
            assert(le(s[i], s[j]));
        }
        lemma_insert_sorted::<T>(init, x);
        let q = insert_sorted::<T>(init, x);
        assert(le(s.last(), x) || le(x, s.last()));
        assert forall|i: int| 0 <= i < q.len() implies le(#[trigger] q[i], s.last()) by {
            if q[i] != x {
                assert(init.contains(q[i]));
                let k = choose|k: int| 0 <= k < init.len() && init[k] == q[i];
                assert(le(s[k], s[s.len() - 1]));
            }
        }
        assert forall|i: int, j: int| 0 <= i < j < r.len() implies #[trigger] le(r[i], r[j]) by {
            if j == q.len() {
                assert(le(q[i], s.last()));
            } else {
                assert(le(q[i], q[j]));
            }
        }
        assert forall|i: int| 0 <= i < r.len() implies #[trigger] r[i] == x || s.contains(r[i]) by {
            if i < q.len() {
                assert(r[i] == q[i]);
                if q[i] != x {
                    assert(init.contains(q[i]));
                    let k = choose|k: int| 0 <= k < init.len() && init[k] == q[i];
                    assert(s[k] == r[i]);
                }
            } else {
                assert(s[s.len() - 1] == r[i]);
            }
        }
    }
}

/// Sorting puts the elements in order.
pub proof fn lemma_sort_sorted<T: Ranked>(s: Seq<T::V>)
    requires
        transitive(|a: T::V, b: T::V| T::spec_le(a, b)),
        strongly_connected(|a: T::V, b: T::V| T::spec_le(a, b)),
    ensures
        sorted_by(sort_seq::<T>(s), |a: T::V, b: T::V| T::spec_le(a, b)),
    decreases s.len(),
{
    if s.len() > 0 {
        lemma_sort_sorted::<T>(s.drop_first());
        lemma_insert_sorted::<T>(sort_seq::<T>(s.drop_first()), s.first());
    }
}

/// The sorted list of texts depends on which texts there are, and not on the
/// order that they come in.
pub proof fn law_sort_ignores_order(a: Seq<Seq<char>>, b: Seq<Seq<char>>)
    requires
        a.to_multiset() == b.to_multiset(),
    ensures
        sort_seq::<String>(a) == sort_seq::<String>(b),
{
    let le = |x: Seq<char>, y: Seq<char>| text_le(x, y);
    lemma_text_le_total_ordering();
    let l = |x: Seq<char>, y: Seq<char>| String::spec_le(x, y);
    assert(le =~= l);
    lemma_sort_sorted::<String>(a);
    lemma_sort_sorted::<String>(b);
    lemma_sort_multiset::<String>(a);
    lemma_sort_multiset::<String>(b);
    lemma_sorted_unique(sort_seq::<String>(a), sort_seq::<String>(b), l);
}

/// Two sorted lists of the same elements are equal, where no two of the
/// elements have the same rank.
pub proof fn lemma_sorted_lists_equal<A>(x: Seq<A>, y: Seq<A>, le: spec_fn(A, A) -> bool)
    requires
        sorted_by(x, le),
        sorted_by(y, le),
        x.to_multiset() == y.to_multiset(),
        forall|i: int, j: int|
            #![trigger x[i], x[j]]
            0 <= i < x.len() && 0 <= j < x.len() && le(x[i], x[j]) && le(x[j], x[i]) ==> x[i]
                == x[j],
    ensures
        x == y,
    decreases x.len(),
{
    broadcast use group_to_multiset_ensures;

    assert(x.len() == x.to_multiset().len());
    assert(y.len() == y.to_multiset().len());
    if x.len() == 0 {
        assert(x =~= y);
    } else {
        let n = x.len() - 1;
        let a = x[n];
        let b = y[n];
        assert(x.contains(a) && y.contains(b));
        assert(x.to_multiset().count(a) > 0 && y.to_multiset().count(b) > 0);
        assert(y.contains(a));
        assert(x.contains(b));
        let i = choose|i: int| 0 <= i < x.len() && x[i] == b;
        let j = choose|j: int| 0 <= j < y.len() && y[j] == a;
        if i < n && j < n {
            assert(le(x[i], x[n]));
            assert(le(y[j], y[n]));
        }
        assert(a == b);
        let x0 = x.drop_last();
        let y0 = y.drop_last();
        assert(x0.push(a) =~= x);
        assert(y0.push(b) =~= y);
        assert(x.to_multiset() =~= x0.to_multiset().insert(a));
        assert(y.to_multiset() =~= y0.to_multiset().insert(b));
        assert(x0.to_multiset() =~= x.to_multiset().remove(a));
        assert(y0.to_multiset() =~= y.to_multiset().remove(b));
        assert forall|i: int, j: int| 0 <= i < j < x0.len() implies #[trigger] le(x0[i], x0[j]) by {
            assert(le(x[i], x[j]));
        }
        assert forall|i: int, j: int| 0 <= i < j < y0.len() implies #[trigger] le(y0[i], y0[j]) by {
            assert(le(y[i], y[j]));
        }
        assert forall|i: int, j: int|
            #![trigger x0[i], x0[j]]
            0 <= i < x0.len() && 0 <= j < x0.len() && le(x0[i], x0[j]) && le(
                x0[j],
                x0[i],
            ) implies x0[i] == x0[j] by {
            assert(x[i] == x0[i] && x[j] == x0[j]);
        }
        lemma_sorted_lists_equal(x0, y0, le);
    }
}

/// The order of bytes is that of a dictionary: what is common in front does not
/// count, the first byte that differs decides, and a text comes before what
/// continues it.
pub proof fn law_dictionary_order(p: Seq<u8>, a: Seq<u8>, b: Seq<u8>)
    ensures
        bytes_le(p + a, p + b) <==> bytes_le(a, b),
        bytes_le(Seq::empty(), b),
        a.len() > 0 ==> !bytes_le(a, Seq::empty()),
        a.len() > 0 && b.len() > 0 && a[0] != b[0] ==> (bytes_le(a, b) <==> a[0] < b[0]),
    decreases p.len(),
{
    if p.len() == 0 {
        assert(p + a =~= a);
        assert(p + b =~= b);
    } else {
        law_dictionary_order(p.drop_first(), a, b);
        assert((p + a)[0] == p[0] && (p + b)[0] == p[0]);
        assert((p + a).drop_first() =~= p.drop_first() + a);
        assert((p + b).drop_first() =~= p.drop_first() + b);
    }
}

} // verus!
