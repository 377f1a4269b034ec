//! Facts about filtered sequences that loops over lists rely on.

use vstd::prelude::*;

verus! {

/// Filtering a sequence with one more element: the element joins the result
/// if and only if it passes.
pub proof fn lemma_filter_push<A>(s: Seq<A>, x: A, pred: spec_fn(A) -> bool)
    ensures
        s.push(x).filter(pred) == if pred(x) {
            s.filter(pred).push(x)
        } else {
            s.filter(pred)
        },
{
    reveal(Seq::filter);
    assert(s.push(x).drop_last() =~= s);
}

/// Filtering the empty sequence leaves it empty.
pub proof fn lemma_filter_empty<A>(pred: spec_fn(A) -> bool)
    ensures
        Seq::<A>::empty().filter(pred) == Seq::<A>::empty(),
{
    reveal(Seq::filter);
}

/// Filtering two sequences joined is joining the two filtered.
pub proof fn lemma_filter_concat<A>(s: Seq<A>, t: Seq<A>, pred: spec_fn(A) -> bool)
    ensures
        (s + t).filter(pred) == s.filter(pred) + t.filter(pred),
    decreases t.len(),
{
    if t.len() == 0 {
        lemma_filter_empty::<A>(pred);
        assert(t =~= Seq::<A>::empty());
        assert(s + t =~= s);
        assert(s.filter(pred) + t.filter(pred) =~= s.filter(pred));
    } else {
        lemma_filter_concat(s, t.drop_last(), pred);
        assert(s + t =~= (s + t.drop_last()).push(t.last()));
        assert(t =~= t.drop_last().push(t.last()));
        lemma_filter_push(s + t.drop_last(), t.last(), pred);
        lemma_filter_push(t.drop_last(), t.last(), pred);
        if pred(t.last()) {
            assert((s.filter(pred) + t.drop_last().filter(pred)).push(t.last()) =~= s.filter(pred)
                + t.drop_last().filter(pred).push(t.last()));
        }
    }
}

/// Taking one item out of a sequence takes it out of what passes a test,
/// if it passed.
pub proof fn lemma_filter_remove<A>(s: Seq<A>, k: int, pred: spec_fn(A) -> bool)
    requires
        0 <= k < s.len(),
    ensures
        s.filter(pred).len() == s.remove(k).filter(pred).len() + if pred(s[k]) {
            1nat
        } else {
            0nat
        },
{
    let front = s.subrange(0, k);
    let back = s.subrange(k + 1, s.len() as int);
    assert(s =~= front.push(s[k]) + back);
    assert(s.remove(k) =~= front + back);
    lemma_filter_concat(front.push(s[k]), back, pred);
    lemma_filter_concat(front, back, pred);
    lemma_filter_push(front, s[k], pred);
}

/// Where no item passes the test, nothing is left.
pub proof fn lemma_filter_none<A>(s: Seq<A>, pred: spec_fn(A) -> bool)
    requires
        forall|j: int| 0 <= j < s.len() ==> !pred(#[trigger] s[j]),
    ensures
        s.filter(pred) == Seq::<A>::empty(),
    decreases s.len(),
{
    if s.len() == 0 {
        lemma_filter_empty::<A>(pred);
        assert(s =~= Seq::<A>::empty());
    } else {
        assert forall|j: int| 0 <= j < s.drop_last().len() implies !pred(
            #[trigger] s.drop_last()[j],
        ) by {
            assert(s.drop_last()[j] == s[j]);
        }
        lemma_filter_none(s.drop_last(), pred);
        assert(s =~= s.drop_last().push(s.last()));
        lemma_filter_push(s.drop_last(), s.last(), pred);
    }
}

/// A second test that, of the items at hand, only lets through what the
/// first lets through makes the first needless.
pub proof fn lemma_filter_within<A>(s: Seq<A>, outer: spec_fn(A) -> bool, inner: spec_fn(A) -> bool)
    requires
        forall|j: int| 0 <= j < s.len() && inner(#[trigger] s[j]) ==> outer(s[j]),
    ensures
        s.filter(outer).filter(inner) == s.filter(inner),
    decreases s.len(),
{
    if s.len() == 0 {
        lemma_filter_empty::<A>(outer);
        lemma_filter_empty::<A>(inner);
        assert(s =~= Seq::<A>::empty());
    } else {
        assert forall|j: int| 0 <= j < s.drop_last().len() && inner(
            #[trigger] s.drop_last()[j],
        ) implies outer(s.drop_last()[j]) by {
            assert(s.drop_last()[j] == s[j]);
        }
        lemma_filter_within(s.drop_last(), outer, inner);
        assert(s =~= s.drop_last().push(s.last()));
        lemma_filter_push(s.drop_last(), s.last(), outer);
        lemma_filter_push(s.drop_last(), s.last(), inner);
        if outer(s.last()) {
            lemma_filter_push(s.drop_last().filter(outer), s.last(), inner);
        }
    }
}

/// The items of `v` in reverse order.
pub fn reversed<T>(v: Vec<T>) -> (r: Vec<T>)
    ensures
        r@.len() == v@.len(),
        forall|k: int| 0 <= k < r@.len() ==> r@[k] == v@[v@.len() - 1 - k],
{
    let ghost all = v@;
    let mut v = v;
    let mut r: Vec<T> = Vec::new();
    while v.len() > 0
        invariant
            v@.len() + r@.len() == all.len(),
            forall|k: int| 0 <= k < v@.len() ==> v@[k] == all[k],
            forall|k: int| 0 <= k < r@.len() ==> r@[k] == all[all.len() - 1 - k],
        decreases v@.len(),
    {
        let x = v.pop().unwrap();
        r.push(x);
    }
    r
}

} // verus!
