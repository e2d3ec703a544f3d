//! Stable sorting of vectors by a total preorder on the elements' views.
use vstd::prelude::*;

verus! {

broadcast use vstd::seq_lib::group_seq_properties;

/// A total preorder on the views of `T`, with a way to decide it.
pub trait SortOrder<T: View> {
    /// `a` may stand before `b`.
    spec fn le(a: T::V, b: T::V) -> bool;

    proof fn lemma_total(a: T::V, b: T::V)
        ensures
            Self::le(a, b) || Self::le(b, a),
    ;

    proof fn lemma_trans(a: T::V, b: T::V, c: T::V)
        requires
            Self::le(a, b),
            Self::le(b, c),
        ensures
            Self::le(a, c),
    ;

    fn le_exec(a: &T, b: &T) -> (r: bool)
        ensures
            r == Self::le(a@, b@),
    ;
}

/// The order of `O` as a spec closure.
pub open spec fn order_of<T: View, O: SortOrder<T>>() -> spec_fn(T::V, T::V) -> bool {
    |a: T::V, b: T::V| O::le(a, b)
}

/// The order of a `SortOrder` is a total preorder.
pub proof fn lemma_order_is_total_preorder<T: View, O: SortOrder<T>>()
    ensures
        total_preorder(order_of::<T, O>()),
{
    let le = order_of::<T, O>();
    assert forall|a: T::V, b: T::V| #[trigger] le(a, b) || le(b, a) by {
        O::lemma_total(a, b);
    }
    assert forall|a: T::V, b: T::V, c: T::V| #[trigger] le(a, b) && #[trigger] le(b, c) implies le(a, c) by {
        O::lemma_trans(a, b, c);
    }
}

/// The views of a sequence of values.
pub open spec fn views<T: View>(s: Seq<T>) -> Seq<T::V> {
    s.map_values(|x: T| x@)
}

/// `le` is total and transitive.
pub open spec fn total_preorder<V>(le: spec_fn(V, V) -> bool) -> bool {
    &&& forall|a: V, b: V| #[trigger] le(a, b) || le(b, a)
    &&& forall|a: V, b: V, c: V| #[trigger] le(a, b) && #[trigger] le(b, c) ==> le(a, c)
}

/// Every element of `s` may stand before every later one.
pub open spec fn sorted_by<V>(s: Seq<V>, le: spec_fn(V, V) -> bool) -> bool {
    forall|i: int, j: int| 0 <= i < j < s.len() ==> le(#[trigger] s[i], #[trigger] s[j])
}

/// The elements that `le` ranks level with `x`.
pub open spec fn same_rank<V>(le: spec_fn(V, V) -> bool, x: V) -> spec_fn(V) -> bool {
    |y: V| le(x, y) && le(y, x)
}

/// `out` is `inp` sorted by `le`, with elements of equal rank kept in the
/// order in which they stand in `inp`.
pub open spec fn stably_sorted_by<V>(out: Seq<V>, inp: Seq<V>, le: spec_fn(V, V) -> bool) -> bool {
    &&& sorted_by(out, le)
    &&& forall|x: V| #[trigger] out.filter(same_rank(le, x)) == inp.filter(same_rank(le, x))
}

/// Filtering a sequence none of whose elements passes gives nothing.
pub proof fn lemma_filter_none<V>(s: Seq<V>, pred: spec_fn(V) -> bool)
    requires
        forall|k: int| 0 <= k < s.len() ==> !pred(#[trigger] s[k]),
    ensures
        s.filter(pred) == Seq::<V>::empty(),
    decreases s.len(),
{
    reveal(Seq::filter);
    if s.len() > 0 {
        lemma_filter_none(s.drop_last(), pred);
    }
}

/// Inserting `x` after the elements that may stand before it keeps a
/// stable sort stable.
pub proof fn lemma_insert_stable<V>(r: Seq<V>, inp: Seq<V>, x: V, p: int, le: spec_fn(V, V) -> bool)
    requires
        total_preorder(le),
        stably_sorted_by(r, inp, le),
        0 <= p <= r.len(),
        p == 0 || le(r[p - 1], x),
        forall|j: int| p <= j < r.len() ==> !le(#[trigger] r[j], x),
    ensures
        stably_sorted_by(r.insert(p, x), inp.push(x), le),
{
    let out = r.insert(p, x);
    assert forall|j: int| 0 <= j < p implies le(#[trigger] r[j], x) by {
        if j < p - 1 {
            assert(le(r[j], r[p - 1]));
        }
    }
    assert forall|j: int| p <= j < r.len() implies le(x, #[trigger] r[j]) by {
        assert(le(r[j], x) || le(x, r[j]));
    }
    assert forall|i: int, j: int| 0 <= i < j < out.len() implies le(#[trigger] out[i], #[trigger] out[j]) by {
        if j < p {
            assert(out[i] == r[i] && out[j] == r[j]);
        } else if j == p {
            assert(out[i] == r[i]);
        } else if i < p {
            assert(out[i] == r[i] && out[j] == r[j - 1]);
            assert(le(r[i], x));
            assert(le(x, r[j - 1]));
        } else if i == p {
            assert(out[j] == r[j - 1]);
        } else {
            assert(out[i] == r[i - 1] && out[j] == r[j - 1]);
        }
    }
    assert forall|z: V| #[trigger] out.filter(same_rank(le, z)) == inp.push(x).filter(same_rank(le, z)) by {
        let pred = same_rank(le, z);
        let head = r.take(p);
        let tail = r.skip(p);
        assert(r =~= head + tail);
        assert(out =~= head + seq![x] + tail);
        assert((head + seq![x] + tail).filter(pred) == (head + seq![x]).filter(pred) + tail.filter(pred));
        assert((head + seq![x]).filter(pred) == head.filter(pred) + seq![x].filter(pred));
        assert((head + tail).filter(pred) == head.filter(pred) + tail.filter(pred));
        assert(seq![x] =~= Seq::<V>::empty().push(x));
        assert(Seq::<V>::empty().filter(pred) =~= Seq::<V>::empty()) by {
            reveal(Seq::filter);
        }
        Seq::<V>::empty().lemma_filter_push(x, pred);
        inp.lemma_filter_push(x, pred);
        assert(r.filter(pred) == inp.filter(pred));
        if pred(x) {
            assert forall|k: int| 0 <= k < tail.len() implies !pred(#[trigger] tail[k]) by {
                assert(tail[k] == r[p + k]);
                if pred(tail[k]) {
                    assert(le(tail[k], z) && le(z, x));
                }
            }
            lemma_filter_none(tail, pred);
            assert(out.filter(pred) =~= r.filter(pred).push(x));
        } else {
            assert(out.filter(pred) =~= r.filter(pred));
        }
    }
}

/// Filtering keeps every copy of an element that passes.
pub proof fn lemma_filter_count<V>(s: Seq<V>, pred: spec_fn(V) -> bool, x: V)
    requires
        pred(x),
    ensures
        s.filter(pred).to_multiset().count(x) == s.to_multiset().count(x),
    decreases s.len(),
{
    broadcast use vstd::seq_lib::group_to_multiset_ensures, vstd::multiset::group_multiset_axioms;

    if s.len() > 0 {
        let init = s.drop_last();
        lemma_filter_count(init, pred, x);
        assert(s =~= init.push(s.last()));
        init.lemma_filter_push(s.last(), pred);
    } else {
        reveal(Seq::filter);
    }
}

/// A stably sorted sequence holds the same elements, as often, as the
/// sequence it was sorted from.
pub proof fn lemma_stably_sorted_is_permutation<V>(out: Seq<V>, inp: Seq<V>, le: spec_fn(V, V) -> bool)
    requires
        total_preorder(le),
        stably_sorted_by(out, inp, le),
    ensures
        out.to_multiset() == inp.to_multiset(),
{
    assert forall|x: V| #[trigger] out.to_multiset().count(x) == inp.to_multiset().count(x) by {
        let pred = same_rank(le, x);
        assert(le(x, x));
        lemma_filter_count(out, pred, x);
        lemma_filter_count(inp, pred, x);
        assert(out.filter(pred) == inp.filter(pred));
    }
    assert(out.to_multiset() =~= inp.to_multiset());
}

/// An element that every other element of the input must stand after comes
/// first in the sorted output.
pub proof fn lemma_stable_first<V>(out: Seq<V>, inp: Seq<V>, le: spec_fn(V, V) -> bool, k: int)
    requires
        total_preorder(le),
        stably_sorted_by(out, inp, le),
        0 <= k < inp.len(),
        forall|i: int| 0 <= i < inp.len() && i != k ==> !le(#[trigger] inp[i], inp[k]),
    ensures
        out.len() > 0,
        out[0] == inp[k],
{
    broadcast use vstd::seq_lib::group_to_multiset_ensures;

    lemma_stably_sorted_is_permutation(out, inp, le);
    assert(inp.contains(inp[k]));
    assert(out.to_multiset().count(inp[k]) > 0);
    assert(out.contains(inp[k]));
    let j = choose|j: int| 0 <= j < out.len() && out[j] == inp[k];
    if j > 0 {
        assert(le(out[0], out[j]));
        assert(out.contains(out[0]));
        assert(inp.to_multiset().count(out[0]) > 0);
        assert(inp.contains(out[0]));
        let i = choose|i: int| 0 <= i < inp.len() && inp[i] == out[0];
        assert(i == k);
    }
}

/// The last element of the input, where every element may stand before
/// it, stays last in the sorted output.
pub proof fn lemma_stable_last<V>(out: Seq<V>, inp: Seq<V>, le: spec_fn(V, V) -> bool)
    requires
        total_preorder(le),
        stably_sorted_by(out, inp, le),
        inp.len() > 0,
        forall|j: int| 0 <= j < inp.len() ==> le(#[trigger] inp[j], inp.last()),
    ensures
        out.len() > 0,
        out.last() == inp.last(),
{
    broadcast use vstd::seq_lib::group_to_multiset_ensures;

    reveal(Seq::filter);
    let x = inp.last();
    let pred = same_rank(le, x);
    lemma_stably_sorted_is_permutation(out, inp, le);
    assert(inp.contains(x));
    assert(out.to_multiset().count(x) > 0);
    assert(out.contains(x));
    let j = choose|j: int| 0 <= j < out.len() && out[j] == x;
    let n = out.len() - 1;
    assert(out.contains(out[n]));
    assert(inp.to_multiset().count(out[n]) > 0);
    assert(inp.contains(out[n]));
    let i = choose|i: int| 0 <= i < inp.len() && inp[i] == out[n];
    assert(le(out[n], x));
    if j < n {
        assert(le(out[j], out[n]));
    }
    assert(le(x, x));
    assert(pred(out[n]));
    assert(pred(x));
    assert(out =~= out.drop_last().push(out.last()));
    assert(inp =~= inp.drop_last().push(inp.last()));
    assert(out.filter(pred) == out.drop_last().filter(pred).push(out.last()));
    assert(inp.filter(pred) == inp.drop_last().filter(pred).push(x));
    assert(out.filter(same_rank(le, x)) == inp.filter(same_rank(le, x)));
    assert(out.filter(pred).last() == out.last());
    assert(inp.filter(pred).last() == x);
}

/// Inserting an element adds it to the multiset of elements.
pub proof fn lemma_insert_to_multiset<V>(s: Seq<V>, p: int, x: V)
    requires
        0 <= p <= s.len(),
    ensures
        s.insert(p, x).to_multiset() == s.to_multiset().insert(x),
{
    broadcast use vstd::seq_lib::group_to_multiset_ensures, vstd::multiset::group_multiset_axioms;

    let t = s.insert(p, x);
    assert(t.remove(p) =~= s);
    assert(t[p] == x);
    assert(t.to_multiset().count(x) > 0);
    assert(t.to_multiset() =~= s.to_multiset().insert(x));
}

/// Where `x` goes into the sorted `r`: after the last element that may
/// stand before it.
pub open spec fn insert_position<V>(r: Seq<V>, x: V, le: spec_fn(V, V) -> bool) -> int
    decreases r.len(),
{
    if r.len() == 0 {
        0
    } else if le(r.last(), x) {
        r.len() as int
    } else {
        insert_position(r.drop_last(), x, le)
    }
}

/// `s` sorted by `le`, each element in turn put after the last element
/// already placed that may stand before it: the stable sort of `s`.
pub open spec fn sorted_seq<V>(s: Seq<V>, le: spec_fn(V, V) -> bool) -> Seq<V>
    decreases s.len(),
{
    if s.len() == 0 {
        Seq::empty()
    } else {
        let r = sorted_seq(s.drop_last(), le);
        r.insert(insert_position(r, s.last(), le), s.last())
    }
}

/// What `insert_position` finds: a place within `r`.
pub proof fn lemma_insert_position<V>(r: Seq<V>, x: V, le: spec_fn(V, V) -> bool)
    ensures
        0 <= insert_position(r, x, le) <= r.len(),
        insert_position(r, x, le) == 0 || le(r[insert_position(r, x, le) - 1], x),
        forall|j: int| insert_position(r, x, le) <= j < r.len() ==> !le(#[trigger] r[j], x),
    decreases r.len(),
{
    if r.len() > 0 && !le(r.last(), x) {
        lemma_insert_position(r.drop_last(), x, le);
        assert forall|j: int| insert_position(r, x, le) <= j < r.len() implies !le(#[trigger] r[j], x) by {
            if j < r.len() - 1 {
                assert(r[j] == r.drop_last()[j]);
            }
        }
    }
}

/// The stable sort of `s` is sorted, keeps elements of equal rank in their
/// order, and holds the elements of `s`.
pub proof fn lemma_sorted_seq_stable<V>(s: Seq<V>, le: spec_fn(V, V) -> bool)
    requires
        total_preorder(le),
    ensures
        stably_sorted_by(sorted_seq(s, le), s, le),
        sorted_seq(s, le).to_multiset() == s.to_multiset(),
        sorted_seq(s, le).len() == s.len(),
    decreases s.len(),
{
    broadcast use vstd::seq_lib::group_to_multiset_ensures;

    if s.len() == 0 {
        assert(sorted_seq(s, le) =~= s);
        assert forall|z: V| #[trigger] sorted_seq(s, le).filter(same_rank(le, z)) == s.filter(same_rank(le, z)) by {}
    } else {
        let init = s.drop_last();
        lemma_sorted_seq_stable(init, le);
        let r = sorted_seq(init, le);
        let x = s.last();
        lemma_insert_position(r, x, le);
        lemma_insert_stable(r, init, x, insert_position(r, x, le), le);
        assert(init.push(x) =~= s);
        lemma_stably_sorted_is_permutation(sorted_seq(s, le), s, le);
    }
}

/// Mapping a sequence by a function that keeps the order commutes with
/// sorting it.
pub proof fn lemma_sorted_seq_map<V, W>(s: Seq<V>, le: spec_fn(V, V) -> bool, f: spec_fn(V) -> W, lw: spec_fn(W, W) -> bool)
    requires
        forall|a: V, b: V| #[trigger] le(a, b) == lw(f(a), f(b)),
    ensures
        sorted_seq(s, le).map_values(f) == sorted_seq(s.map_values(f), lw),
    decreases s.len(),
{
    if s.len() > 0 {
        let init = s.drop_last();
        lemma_sorted_seq_map(init, le, f, lw);
        assert(s.map_values(f).drop_last() =~= init.map_values(f));
        let r = sorted_seq(init, le);
        lemma_insert_position_map(r, s.last(), le, f, lw);
        lemma_insert_position(r, s.last(), le);
        assert(r.insert(insert_position(r, s.last(), le), s.last()).map_values(f) =~= r.map_values(f).insert(
            insert_position(r, s.last(), le),
            f(s.last()),
        ));
    }
}

/// Where an element goes does not change under an order-keeping map.
pub proof fn lemma_insert_position_map<V, W>(
    r: Seq<V>,
    x: V,
    le: spec_fn(V, V) -> bool,
    f: spec_fn(V) -> W,
    lw: spec_fn(W, W) -> bool,
)
    requires
        forall|a: V, b: V| #[trigger] le(a, b) == lw(f(a), f(b)),
    ensures
        insert_position(r, x, le) == insert_position(r.map_values(f), f(x), lw),
    decreases r.len(),
{
    if r.len() > 0 {
        assert(r.map_values(f).drop_last() =~= r.drop_last().map_values(f));
        assert(le(r.last(), x) == lw(f(r.last()), f(x)));
        lemma_insert_position_map(r.drop_last(), x, le, f, lw);
    }
}

/// Sorts `v` by the order `O`; elements of equal rank keep their order.
pub fn stable_sort<T: View, O: SortOrder<T>>(v: Vec<T>) -> (r: Vec<T>)
    ensures
        views(r@) == sorted_seq(views(v@), order_of::<T, O>()),
        stably_sorted_by(views(r@), views(v@), order_of::<T, O>()),
        r@.to_multiset() == v@.to_multiset(),
{
    let ghost inp = views(v@);
    let ghost le = order_of::<T, O>();
    proof {
        lemma_order_is_total_preorder::<T, O>();
    }
    let mut rest = v;
    let mut r: Vec<T> = Vec::new();
    proof {
        broadcast use vstd::seq_lib::group_to_multiset_ensures, vstd::multiset::group_multiset_axioms;
        assert(r@.to_multiset() =~= vstd::multiset::Multiset::empty());
        assert(r@.to_multiset().add(rest@.to_multiset()) =~= v@.to_multiset());
    }
    let ghost mut i: int = 0;
    proof {
        assert(views(rest@) =~= inp.skip(0));
        assert(views(r@) =~= inp.take(0));
        assert forall|z: T::V| #[trigger] views(r@).filter(same_rank(le, z)) == inp.take(0).filter(same_rank(le, z)) by {}
    }
    while rest.len() > 0
        invariant
            0 <= i <= inp.len(),
            inp == views(v@),
            le == order_of::<T, O>(),
            total_preorder(le),
            views(rest@) == inp.skip(i),
            stably_sorted_by(views(r@), inp.take(i), le),
            views(r@) == sorted_seq(inp.take(i), le),
            r@.to_multiset().add(rest@.to_multiset()) == v@.to_multiset(),
        decreases rest.len(),
    {
        let ghost before = rest@;
        let x = rest.remove(0);
        proof {
            assert(views(before)[0] == x@);
            assert(views(rest@) =~= views(before).skip(1));
            lemma_insert_to_multiset(rest@, 0, x);
            assert(rest@.insert(0, x) =~= before);
        }
        let mut p = r.len();
        proof {
            assert(views(r@).take(p as int) =~= views(r@));
        }
        while p > 0 && !O::le_exec(&r[p - 1], &x)
            invariant
                p <= r.len(),
                le == order_of::<T, O>(),
                forall|j: int| p <= j < r.len() ==> !le(#[trigger] views(r@)[j], x@),
                insert_position(views(r@), x@, le) == insert_position(views(r@).take(p as int), x@, le),
            decreases p,
        {
            proof {
                assert(views(r@).take(p as int).drop_last() =~= views(r@).take(p - 1));
                assert(views(r@).take(p as int).last() == views(r@)[p - 1]);
            }
            p = p - 1;
        }
        proof {
            if p > 0 {
                assert(views(r@).take(p as int).last() == views(r@)[p - 1]);
            }
            assert(insert_position(views(r@), x@, le) == p);
        }
        proof {
            assert(inp.skip(i)[0] == x@);
            assert(inp[i] == x@);
            assert(inp.take(i + 1) =~= inp.take(i).push(x@));
            assert(inp.take(i + 1).drop_last() =~= inp.take(i));
            lemma_insert_stable(views(r@), inp.take(i), x@, p as int, le);
            lemma_insert_to_multiset(r@, p as int, x);
            broadcast use vstd::multiset::group_multiset_axioms;
            assert(r@.insert(p as int, x).to_multiset().add(rest@.to_multiset()) =~= r@.to_multiset().add(before.to_multiset()));
            assert(views(r@).insert(p as int, x@) =~= views(r@.insert(p as int, x)));
            assert(views(rest@) =~= inp.skip(i + 1));
            i = i + 1;
        }
        r.insert(p, x);
    }
    proof {
        assert(inp.take(i) =~= inp);
        broadcast use vstd::seq_lib::group_to_multiset_ensures, vstd::multiset::group_multiset_axioms;
        assert(rest@.to_multiset() =~= vstd::multiset::Multiset::empty());
        assert(r@.to_multiset() =~= r@.to_multiset().add(rest@.to_multiset()));
    }
    r
}

} // verus!
