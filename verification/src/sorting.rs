//! A stable sort into non-increasing order of an integer key: the order the
//! leaderboard and the inventory listings are shown in.

use vstd::prelude::*;

verus! {

/// The predicate "has key `k`".
pub open spec fn key_is<T>(key: spec_fn(T) -> int, k: int) -> spec_fn(T) -> bool {
    |t: T| key(t) == k
}

/// `s` is in non-increasing order of `key`.
pub open spec fn desc_sorted<T>(s: Seq<T>, key: spec_fn(T) -> int) -> bool {
    forall|i: int, j: int| 0 <= i < j < s.len() ==> key(#[trigger] s[i]) >= key(#[trigger] s[j])
}

/// `b` holds, for every key, the same items with that key as `a`, in the same
/// relative order. Together with `desc_sorted` this pins down the result of a
/// stable sort.
pub open spec fn same_key_classes<T>(a: Seq<T>, b: Seq<T>, key: spec_fn(T) -> int) -> bool {
    forall|k: int| #[trigger] a.filter(key_is(key, k)) == b.filter(key_is(key, k))
}

proof fn lemma_filter_none<T>(s: Seq<T>, pred: spec_fn(T) -> bool)
    requires
        forall|i: int| 0 <= i < s.len() ==> !pred(#[trigger] s[i]),
    ensures
        s.filter(pred) == Seq::<T>::empty(),
    decreases s.len(),
{
    reveal(Seq::filter);
    if s.len() > 0 {
        lemma_filter_none(s.drop_last(), pred);
    }
}

proof fn lemma_filter_single<T>(x: T, pred: spec_fn(T) -> bool)
    ensures
        seq![x].filter(pred) == (if pred(x) { seq![x] } else { Seq::<T>::empty() }),
{
    reveal(Seq::filter);
    let s = seq![x];
    assert(s.drop_last() == Seq::<T>::empty());
    assert(s.drop_last().filter(pred) == Seq::<T>::empty());
    assert(s.last() == x);
    assert(s.len() == 1);
    assert(s.filter(pred) == (if pred(s.last()) { s.drop_last().filter(pred).push(s.last()) } else { s.drop_last().filter(pred) }));
    assert(Seq::<T>::empty().push(x) == s);
}

/// Inserting `x` after every element whose key is at least its own keeps the
/// order and adds `x` at the end of its key class.
proof fn lemma_insert_keeps_classes<T>(out: Seq<T>, x: T, p: int, key: spec_fn(T) -> int, k: int)
    requires
        0 <= p <= out.len(),
        desc_sorted(out, key),
        forall|i: int| 0 <= i < p ==> key(#[trigger] out[i]) >= key(x),
        p < out.len() ==> key(out[p]) < key(x),
    ensures
        out.insert(p, x).filter(key_is(key, k)) == out.filter(key_is(key, k)) + seq![x].filter(
            key_is(key, k),
        ),
{
    let pred = key_is(key, k);
    let a = out.subrange(0, p);
    let b = out.subrange(p, out.len() as int);
    assert(out == a + b);
    assert(out.insert(p, x) == a + seq![x] + b);
    Seq::filter_distributes_over_add(a, b, pred);
    Seq::filter_distributes_over_add(a + seq![x], b, pred);
    Seq::filter_distributes_over_add(a, seq![x], pred);
    lemma_filter_single(x, pred);
    if key(x) == k {
        assert forall|i: int| 0 <= i < b.len() implies !pred(#[trigger] b[i]) by {
            assert(b[i] == out[p + i]);
            if i > 0 {
                assert(key(out[p]) >= key(out[p + i]));
            }
        }
        lemma_filter_none(b, pred);
        assert(b.filter(pred) == Seq::<T>::empty());
        assert(out.filter(pred) == a.filter(pred));
    }
}

/// Sorts `v` stably into non-increasing order of `key`; `f` computes the key.
pub fn stable_sort_desc<T, F: Fn(&T) -> i128>(v: &mut Vec<T>, Ghost(key): Ghost<spec_fn(T) -> int>, f: F)
    requires
        forall|t: &T| #[trigger] f.requires((t,)),
        forall|t: &T, r: i128| f.ensures((t,), r) ==> r == key(*t),
    ensures
        final(v)@.len() == old(v)@.len(),
        final(v)@.to_multiset() == old(v)@.to_multiset(),
        desc_sorted(final(v)@, key),
        same_key_classes(old(v)@, final(v)@, key),
{
    let mut rest: Vec<T> = Vec::new();
    std::mem::swap(&mut rest, v);
    let ghost orig = rest@;
    let mut out: Vec<T> = Vec::new();
    let ghost mut n: int = 0;
    proof {
        assert(orig.subrange(0, 0) == Seq::<T>::empty());
        assert(out@ == Seq::<T>::empty());
        vstd::seq_lib::to_multiset_len(out@);
        vstd::seq_lib::to_multiset_len(orig.subrange(0, 0));
        assert(out@.to_multiset() =~= orig.subrange(0, 0).to_multiset());
        assert forall|k: int| #[trigger] orig.subrange(0, 0).filter(key_is(key, k)) == out@.filter(key_is(key, k)) by {
            assert(orig.subrange(0, 0) == Seq::<T>::empty());
            assert(out@ == Seq::<T>::empty());
        }
    }
    while rest.len() > 0
        invariant
            0 <= n <= orig.len(),
            rest@ == orig.subrange(n, orig.len() as int),
            out@.len() == n,
            out@.to_multiset() == orig.subrange(0, n).to_multiset(),
            desc_sorted(out@, key),
            same_key_classes(orig.subrange(0, n), out@, key),
            forall|t: &T| #[trigger] f.requires((t,)),
            forall|t: &T, r: i128| f.ensures((t,), r) ==> r == key(*t),
        decreases rest.len(),
    {
        let x = rest.remove(0);
        let kx = f(&x);
        let mut p: usize = 0;
        while p < out.len() && f(&out[p]) >= kx
            invariant
                p <= out.len(),
                kx == key(x),
                forall|i: int| 0 <= i < p ==> key(#[trigger] out@[i]) >= key(x),
                forall|t: &T| #[trigger] f.requires((t,)),
                forall|t: &T, r: i128| f.ensures((t,), r) ==> r == key(*t),
            decreases out.len() - p,
        {
            p = p + 1;
        }
        let ghost old_out = out@;
        proof {
            assert forall|k: int|
                #[trigger] orig.subrange(0, n + 1).filter(key_is(key, k)) == old_out.insert(
                    p as int,
                    x,
                ).filter(key_is(key, k)) by {
                lemma_insert_keeps_classes(old_out, x, p as int, key, k);
                assert(orig.subrange(0, n + 1) == orig.subrange(0, n) + seq![x]);
                Seq::filter_distributes_over_add(orig.subrange(0, n), seq![x], key_is(key, k));
                assert(orig.subrange(0, n).filter(key_is(key, k)) == old_out.filter(
                    key_is(key, k),
                ));
            }
        }
        out.insert(p, x);
        proof {
            vstd::seq_lib::to_multiset_insert(old_out, p as int, x);
            vstd::seq_lib::to_multiset_build(orig.subrange(0, n), x);
            assert(orig.subrange(0, n + 1) == orig.subrange(0, n).push(x));
            assert forall|i: int, j: int| 0 <= i < j < out@.len() implies key(
                #[trigger] out@[i],
            ) >= key(#[trigger] out@[j]) by {
                if j < p {
                } else if j == p {
                } else if i < p {
                    assert(out@[j] == old_out[j - 1]);
                    if p < old_out.len() {
                        assert(key(old_out[p as int]) >= key(old_out[j - 1]));
                    }
                } else if i == p {
                    assert(out@[j] == old_out[j - 1]);
                    assert(key(old_out[p as int]) >= key(old_out[j - 1]));
                } else {
                    assert(out@[i] == old_out[i - 1]);
                    assert(out@[j] == old_out[j - 1]);
                }
            }
            n = n + 1;
            assert(rest@ == orig.subrange(n, orig.len() as int));
        }
    }
    assert(orig.subrange(0, n) == orig);
    *v = out;
}

} // verus!
