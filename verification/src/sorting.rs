// Stable sorting of the registry lists

use vstd::prelude::*;
use vstd::multiset::Multiset;
use vstd::relations::{sorted_by, strongly_connected, transitive};

verus! {

broadcast use vstd::seq_lib::group_to_multiset_ensures;

/// A relation that orders all values, ties allowed
pub open spec fn total_preorder<T>(rel: spec_fn(T, T) -> bool) -> bool {
    transitive(rel) && strongly_connected(rel)
}

/// The elements of s that the relation puts level with e (each may stand before the other), in
/// their order in s
pub open spec fn equiv_class<T>(s: Seq<T>, rel: spec_fn(T, T) -> bool, e: T) -> Seq<T> {
    s.filter(|y: T| rel(y, e) && rel(e, y))
}

proof fn lemma_filter_none<T>(s: Seq<T>, f: spec_fn(T) -> bool)
    requires
        forall|j: int| 0 <= j < s.len() ==> !f(#[trigger] s[j]),
    ensures
        s.filter(f) == Seq::<T>::empty(),
    decreases s.len(),
{
    reveal(Seq::filter);
    if s.len() > 0 {
        lemma_filter_none(s.drop_last(), f);
    }
}

proof fn lemma_filter_single<T>(x: T, f: spec_fn(T) -> bool)
    ensures
        seq![x].filter(f) == (if f(x) {
            seq![x]
        } else {
            Seq::<T>::empty()
        }),
{
    reveal_with_fuel(Seq::filter, 2);
    assert(seq![x].drop_last() =~= Seq::<T>::empty());
}

/// Inserting x where no later element passes the filter appends x to what passes, if x passes;
/// inserting an x that does not pass leaves what passes unchanged
proof fn lemma_filter_insert<T>(s: Seq<T>, p: int, x: T, f: spec_fn(T) -> bool)
    requires
        0 <= p <= s.len(),
        f(x) ==> forall|j: int| p <= j < s.len() ==> !f(#[trigger] s[j]),
    ensures
        s.insert(p, x).filter(f) == s.filter(f) + seq![x].filter(f),
{
    let a = s.take(p);
    let b = s.skip(p);
    assert(s.insert(p, x) =~= a + seq![x] + b);
    assert(s =~= a + b);
    Seq::filter_distributes_over_add(a + seq![x], b, f);
    Seq::filter_distributes_over_add(a, seq![x], f);
    Seq::filter_distributes_over_add(a, b, f);
    lemma_filter_single(x, f);
    if f(x) {
        assert forall|j: int| 0 <= j < b.len() implies !f(#[trigger] b[j]) by {
            assert(b[j] == s[p + j]);
        }
        lemma_filter_none(b, f);
        assert(a.filter(f) + seq![x] + Seq::<T>::empty() =~= a.filter(f) + Seq::<T>::empty() + seq![x]);
    } else {
        assert(a.filter(f) + Seq::<T>::empty() + b.filter(f) =~= a.filter(f) + b.filter(f));
        assert(a.filter(f) + b.filter(f) + Seq::<T>::empty() =~= a.filter(f) + b.filter(f));
    }
}

/// Taking one more element appends it to what passes, if it passes
proof fn lemma_filter_take_next<T>(s: Seq<T>, c: int, f: spec_fn(T) -> bool)
    requires
        0 <= c < s.len(),
    ensures
        s.take(c + 1).filter(f) == s.take(c).filter(f) + seq![s[c]].filter(f),
{
    assert(s.take(c + 1) =~= s.take(c) + seq![s[c]]);
    Seq::filter_distributes_over_add(s.take(c), seq![s[c]], f);
}

/// After a stable sort, the elements that pass a filter keep their order, where the filter
/// passes exactly a class of elements that the relation puts level with each other
pub proof fn lemma_stable_filter<T>(s: Seq<T>, t: Seq<T>, rel: spec_fn(T, T) -> bool, pred: spec_fn(T) -> bool)
    requires
        s.to_multiset() == t.to_multiset(),
        forall|e: T| #[trigger] equiv_class(t, rel, e) == equiv_class(s, rel, e),
        forall|a: T, b: T| #[trigger] pred(a) && #[trigger] pred(b) ==> rel(a, b) && rel(b, a),
        forall|a: T, b: T| pred(a) && #[trigger] rel(a, b) && #[trigger] rel(b, a) ==> pred(b),
    ensures
        t.filter(pred) == s.filter(pred),
{
    if exists|i: int| 0 <= i < s.len() && pred(s[i]) {
        let i = choose|i: int| 0 <= i < s.len() && pred(s[i]);
        let e = s[i];
        let f = |y: T| rel(y, e) && rel(e, y);
        assert forall|y: T| #[trigger] f(y) == pred(y) by {
            if pred(y) {
                assert(pred(e) && pred(y));
            }
            if f(y) {
                assert(rel(e, y) && rel(y, e));
            }
        }
        assert(f =~= pred);
        assert(equiv_class(t, rel, e) == equiv_class(s, rel, e));
    } else {
        lemma_filter_none(s, pred);
        assert forall|j: int| 0 <= j < t.len() implies !pred(#[trigger] t[j]) by {
            assert(t.to_multiset().count(t[j]) > 0);
            assert(s.to_multiset().count(t[j]) > 0);
            assert(s.contains(t[j]));
        }
        lemma_filter_none(t, pred);
    }
}

proof fn lemma_insert_to_multiset<T>(s: Seq<T>, p: int, x: T)
    requires
        0 <= p <= s.len(),
    ensures
        s.insert(p, x).to_multiset() =~= s.to_multiset().insert(x),
{
    let t = s.insert(p, x);
    assert(t.remove(p) =~= s);
    assert(t[p] == x);
    assert(t.remove(p).to_multiset() == t.to_multiset().remove(x));
    assert(t.contains(x));
    assert(t.to_multiset().count(x) > 0);
    assert(t.to_multiset().remove(x).insert(x) =~= t.to_multiset());
}

/// Rearranging a sequence rearranges the images of its elements
pub proof fn lemma_multiset_map_values<T, U>(s: Seq<T>, t: Seq<T>, f: spec_fn(T) -> U)
    requires
        s.to_multiset() == t.to_multiset(),
    ensures
        s.map_values(f).to_multiset() == t.map_values(f).to_multiset(),
    decreases s.len(),
{
    if s.len() == 0 {
        assert(s.to_multiset().len() == 0);
        assert(t.to_multiset().len() == t.len());
        assert(s.map_values(f) =~= Seq::<U>::empty());
        assert(t.map_values(f) =~= Seq::<U>::empty());
    } else {
        let x = s.last();
        let s2 = s.drop_last();
        assert(s2.push(x) =~= s);
        assert(s.to_multiset() == s2.to_multiset().insert(x));
        assert(s.to_multiset().count(x) > 0);
        assert(t.contains(x));
        assert(exists|p: int| 0 <= p < t.len() && t[p] == x);
        let p = choose|p: int| 0 <= p < t.len() && t[p] == x;
        let t2 = t.remove(p);
        assert(t2.to_multiset() == t.to_multiset().remove(x));
        assert(t2.to_multiset() =~= s2.to_multiset());
        lemma_multiset_map_values(s2, t2, f);
        assert(s.map_values(f) =~= s2.map_values(f).push(f(x)));
        assert(t2.insert(p, x) =~= t);
        assert(t.map_values(f) =~= t2.map_values(f).insert(p, f(x)));
        lemma_insert_to_multiset(t2.map_values(f), p, f(x));
        assert(s2.map_values(f).push(f(x)).to_multiset() == s2.map_values(f).to_multiset().insert(
            f(x),
        ));
    }
}

/// Sort a vector with a comparison that tells whether its first argument may stand before its
/// second; elements that may stand either way keep their order (insertion sort)
pub fn sort_by_le<T, F: Fn(&T, &T) -> bool>(v: &mut Vec<T>, le: &F, Ghost(rel): Ghost<spec_fn(T, T) -> bool>)
    requires
        forall|a: &T, b: &T| #[trigger] le.requires((a, b)),
        forall|a: &T, b: &T, r: bool| le.ensures((a, b), r) ==> r == rel(*a, *b),
        total_preorder(rel),
    ensures
        final(v)@.to_multiset() == old(v)@.to_multiset(),
        final(v)@.len() == old(v)@.len(),
        sorted_by(final(v)@, rel),
        forall|e: T| #[trigger] equiv_class(final(v)@, rel, e) == equiv_class(old(v)@, rel, e),
{
    let mut src: Vec<T> = Vec::new();
    std::mem::swap(&mut src, v);
    let ghost orig = src@;
    let ghost mut c: int = 0;
    assert(v@.to_multiset() =~= Multiset::<T>::empty());
    proof {
        assert forall|e: T| #[trigger] equiv_class(v@, rel, e) == equiv_class(orig.take(0), rel, e) by {
            reveal(Seq::filter);
            assert(orig.take(0) =~= v@);
        }
        assert(src@ =~= orig.skip(0));
    }
    while src.len() > 0
        invariant
            forall|a: &T, b: &T| #[trigger] le.requires((a, b)),
            forall|a: &T, b: &T, r: bool| le.ensures((a, b), r) ==> r == rel(*a, *b),
            total_preorder(rel),
            sorted_by(v@, rel),
            v@.to_multiset().add(src@.to_multiset()) == orig.to_multiset(),
            v@.len() + src@.len() == orig.len(),
            0 <= c <= orig.len(),
            src@ == orig.skip(c),
            forall|e: T| #[trigger] equiv_class(v@, rel, e) == equiv_class(orig.take(c), rel, e),
        decreases src@.len(),
    {
        let ghost src_before = src@;
        let x = src.remove(0);
        assert(src@ == src_before.remove(0));
        let mut p: usize = 0;
        while p < v.len() && le(&v[p], &x)
            invariant
                forall|a: &T, b: &T| #[trigger] le.requires((a, b)),
                forall|a: &T, b: &T, r: bool| le.ensures((a, b), r) ==> r == rel(*a, *b),
                p <= v@.len(),
                forall|i: int| 0 <= i < p ==> #[trigger] rel(v@[i], x),
            decreases v@.len() - p,
        {
            p += 1;
        }
        let ghost before = v@;
        proof {
            // all later elements are not before x, so x may stand before them
            if p < before.len() {
                assert(!rel(before[p as int], x));
                assert(rel(x, before[p as int]));
                assert forall|j: int| p < j < before.len() implies #[trigger] rel(x, before[j]) by {
                    assert(rel(before[p as int], before[j]));
                }
            }
        }
        v.insert(p, x);
        proof {
            assert(v@ == before.insert(p as int, x));
            assert(x == orig[c]);
            assert forall|e: T| #[trigger] equiv_class(v@, rel, e) == equiv_class(orig.take(c + 1), rel, e) by {
                let f = |y: T| rel(y, e) && rel(e, y);
                if f(x) {
                    assert forall|j: int| p <= j < before.len() implies !f(#[trigger] before[j]) by {
                        if j > p {
                            assert(rel(before[p as int], before[j]));
                        }
                        if rel(before[j], e) {
                            assert(rel(before[j], x));
                            if j > p {
                                assert(rel(before[p as int], x));
                            }
                        }
                    }
                }
                lemma_filter_insert(before, p as int, x, f);
                lemma_filter_take_next(orig, c, f);
                assert(equiv_class(before, rel, e) == equiv_class(orig.take(c), rel, e));
            }
            c = c + 1;
            assert(src@ =~= orig.skip(c));
            assert forall|i: int, j: int| 0 <= i < j < v@.len() implies #[trigger] rel(
                v@[i],
                v@[j],
            ) by {
                if i < p && j < p {
                    assert(rel(before[i], before[j]));
                } else if i < p && j == p {
                } else if i < p && j > p {
                    assert(rel(before[i], before[j - 1]));
                } else if i == p {
                    assert(rel(x, before[j - 1]));
                } else {
                    assert(rel(before[i - 1], before[j - 1]));
                }
            }
            lemma_insert_to_multiset(before, p as int, x);
            assert(src_before.to_multiset().remove(x) == src@.to_multiset());
            assert(src_before.contains(x)) by {
                assert(src_before[0] == x);
            }
            assert(src_before.to_multiset().count(x) > 0);
            assert(src@.to_multiset().insert(x) =~= src_before.to_multiset());
            assert(v@.to_multiset().add(src@.to_multiset()) =~= before.to_multiset().add(
                src_before.to_multiset(),
            ));
        }
    }
    assert(src@.to_multiset() =~= Multiset::<T>::empty());
    assert(v@.to_multiset() =~= orig.to_multiset());
    assert(orig.take(c) =~= orig);
}

} // verus!
