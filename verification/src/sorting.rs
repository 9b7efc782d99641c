//! A stable sort by a lexicographic integer key, with the contract that
//! determines its result: the output is ordered, and for every key the items
//! with that key stand in the order they had.

use vstd::prelude::*;

verus! {

/// A sort key: compared component by component, first to last.
pub type Key = (int, int, int);

/// Lexicographic `<=` on keys.
pub open spec fn lex_le(a: Key, b: Key) -> bool {
    a.0 < b.0 || (a.0 == b.0 && (a.1 < b.1 || (a.1 == b.1 && a.2 <= b.2)))
}

/// An order on `T` given by a key.
pub trait KeyOrder<T> {
    /// The key by which items are ordered.
    spec fn key(t: T) -> Key;

    /// Whether `a` may stand before `b`.
    fn le(a: &T, b: &T) -> (r: bool)
        ensures
            r == lex_le(Self::key(*a), Self::key(*b)),
    ;
}

/// Keys never decrease along `s`.
pub open spec fn sorted_by<T, O: KeyOrder<T>>(s: Seq<T>) -> bool {
    forall|i: int, j: int| 0 <= i < j < s.len() ==> lex_le(O::key(s[i]), O::key(s[j]))
}

/// The items of `s` whose key is `k`, in the order in which they stand in `s`.
pub open spec fn with_key<T, O: KeyOrder<T>>(s: Seq<T>, k: Key) -> Seq<T> {
    s.filter(has_key::<T, O>(k))
}

/// The test for "the key of this item is `k`".
pub open spec fn has_key<T, O: KeyOrder<T>>(k: Key) -> spec_fn(T) -> bool {
    |x: T| O::key(x) == k
}

/// `a` holds the items of `b`, and items of equal key in the same order.
pub open spec fn same_per_key<T, O: KeyOrder<T>>(a: Seq<T>, b: Seq<T>) -> bool {
    forall|k: Key| #[trigger] with_key::<T, O>(a, k) == with_key::<T, O>(b, k)
}

/// `a` is `b` sorted stably by the key of `O`.
pub open spec fn is_stable_sort_of<T, O: KeyOrder<T>>(a: Seq<T>, b: Seq<T>) -> bool {
    &&& sorted_by::<T, O>(a)
    &&& same_per_key::<T, O>(a, b)
    &&& a.len() == b.len()
    &&& a.to_multiset() == b.to_multiset()
}

/// Inserting `x` into `p` behind every item that may stand before it, and
/// before every other, keeps the items of each key in the order of `p`
/// followed by `x`.
proof fn lemma_insert_keeps_per_key<T, O: KeyOrder<T>>(p: Seq<T>, x: T, at: int, k: Key)
    requires
        0 <= at <= p.len(),
        forall|j: int| at <= j < p.len() ==> !lex_le(O::key(#[trigger] p[j]), O::key(x)),
    ensures
        with_key::<T, O>(p.insert(at, x), k) == with_key::<T, O>(p.push(x), k),
{
    let pred = has_key::<T, O>(k);
    let head = p.subrange(0, at);
    let tail = p.subrange(at, p.len() as int);
    assert(p.insert(at, x) =~= head + seq![x] + tail);
    assert(p.push(x) =~= head + tail + seq![x]);
    Seq::filter_distributes_over_add(head + seq![x], tail, pred);
    Seq::filter_distributes_over_add(head, seq![x], pred);
    Seq::filter_distributes_over_add(head + tail, seq![x], pred);
    Seq::filter_distributes_over_add(head, tail, pred);
    reveal_with_fuel(Seq::filter, 2);
    assert(seq![x].drop_last() =~= Seq::<T>::empty());
    if O::key(x) == k {
        assert(tail.filter(pred).len() == 0) by {
            if tail.filter(pred).len() > 0 {
                tail.lemma_filter_pred(pred, 0);
                let y = tail.filter(pred)[0];
                assert(tail.filter(pred).contains(y));
                tail.lemma_filter_contains_rev(pred, y);
            }
        }
        assert(head.filter(pred) + seq![x].filter(pred) + tail.filter(pred) =~= head.filter(pred)
            + tail.filter(pred) + seq![x].filter(pred));
    } else {
        assert(seq![x].filter(pred) =~= Seq::<T>::empty());
        assert(head.filter(pred) + seq![x].filter(pred) + tail.filter(pred) =~= head.filter(pred)
            + tail.filter(pred) + seq![x].filter(pred));
    }
}

/// Sorts `v` in place by the key of `O`, keeping items of equal key in
/// the order they had.
pub fn stable_sort<T, O: KeyOrder<T>>(v: &mut Vec<T>)
    ensures
        is_stable_sort_of::<T, O>(final(v)@, old(v)@),
{
    let n = v.len();
    let mut i: usize = 0;
    while i < n
        invariant
            i <= n,
            n == v@.len(),
            n == old(v)@.len(),
            v@.subrange(i as int, n as int) == old(v)@.subrange(i as int, n as int),
            sorted_by::<T, O>(v@.subrange(0, i as int)),
            same_per_key::<T, O>(v@.subrange(0, i as int), old(v)@.subrange(0, i as int)),
            v@.to_multiset() == old(v)@.to_multiset(),
        decreases n - i,
    {
        let ghost before = v@;
        let ghost prefix = v@.subrange(0, i as int);
        let x = v.remove(i);
        let ghost without = v@;
        let mut at: usize = i;
        while at > 0 && !O::le(&v[at - 1], &x)
            invariant
                at <= i,
                i < n,
                v@ == without,
                without.len() == n - 1,
                forall|j: int| at <= j < i ==> !lex_le(O::key(#[trigger] without[j]), O::key(x)),
            decreases at,
        {
            at = at - 1;
        }
        v.insert(at, x);
        proof {
            assert(before[i as int] == x);
            assert(before.subrange(i as int, n as int) == old(v)@.subrange(i as int, n as int));
            assert(old(v)@[i as int] == old(v)@.subrange(i as int, n as int)[0]);
            assert(without.subrange(0, i as int) =~= prefix);
            assert(v@.subrange(0, i + 1) =~= prefix.insert(at as int, x));
            assert(v@.subrange(i + 1, n as int) =~= old(v)@.subrange(i + 1, n as int)) by {
                let rest = v@.subrange(i + 1, n as int);
                assert forall|j: int| 0 <= j < n - i - 1 implies #[trigger] rest[j] == old(
                    v,
                )@.subrange(i + 1, n as int)[j] by {
                    assert(v@[i + 1 + j] == before[i + 1 + j]);
                    assert(before.subrange(i as int, n as int)[j + 1] == old(v)@.subrange(
                        i as int,
                        n as int,
                    )[j + 1]);
                }
            }
            let next = prefix.insert(at as int, x);
            assert(sorted_by::<T, O>(next)) by {
                assert forall|a: int, b: int| 0 <= a < b < next.len() implies lex_le(
                    O::key(next[a]),
                    O::key(next[b]),
                ) by {
                    if a < at {
                        assert(next[a] == prefix[a]);
                        assert(lex_le(O::key(prefix[a]), O::key(prefix[at - 1])));
                        assert(without[at - 1] == prefix[at - 1]);
                        assert(lex_le(O::key(prefix[at - 1]), O::key(x)));
                    } else if a > at {
                        assert(next[a] == prefix[a - 1]);
                    }
                    if b > at {
                        assert(next[b] == prefix[b - 1]);
                        assert(without[b - 1] == prefix[b - 1]);
                        assert(!lex_le(O::key(without[b - 1]), O::key(x)));
                        if a < at {
                            assert(lex_le(O::key(prefix[a]), O::key(prefix[b - 1])));
                        } else if a > at {
                            assert(lex_le(O::key(prefix[a - 1]), O::key(prefix[b - 1])));
                        }
                    }
                }
            }
            assert(v@.to_multiset() =~= old(v)@.to_multiset()) by {
                broadcast use vstd::multiset::group_multiset_axioms;

                vstd::seq_lib::to_multiset_remove(before, i as int);
                vstd::seq_lib::to_multiset_insert(without, at as int, x);
                before.to_multiset_ensures();
                assert(before.to_multiset().count(x) > 0);
            }
            assert(old(v)@.subrange(0, i + 1) =~= old(v)@.subrange(0, i as int).push(x));
            assert forall|k: Key| #[trigger]
                with_key::<T, O>(next, k) == with_key::<T, O>(old(v)@.subrange(0, i + 1), k) by {
                lemma_insert_keeps_per_key::<T, O>(prefix, x, at as int, k);
                let pred = has_key::<T, O>(k);
                assert(prefix.push(x) =~= prefix + seq![x]);
                assert(old(v)@.subrange(0, i as int).push(x) =~= old(v)@.subrange(0, i as int)
                    + seq![x]);
                Seq::filter_distributes_over_add(prefix, seq![x], pred);
                Seq::filter_distributes_over_add(old(v)@.subrange(0, i as int), seq![x], pred);
                assert(with_key::<T, O>(prefix, k) == with_key::<T, O>(
                    old(v)@.subrange(0, i as int),
                    k,
                ));
            }
        }
        i = i + 1;
    }
    proof {
        assert(v@.subrange(0, n as int) =~= v@);
        assert(old(v)@.subrange(0, n as int) =~= old(v)@);
    }
}

/// What holds of every item of a sequence holds of every item of the
/// sequence sorted.
pub proof fn lemma_sort_keeps_all<T, O: KeyOrder<T>>(a: Seq<T>, b: Seq<T>, p: spec_fn(T) -> bool)
    requires
        is_stable_sort_of::<T, O>(a, b),
        forall|j: int| 0 <= j < b.len() ==> p(#[trigger] b[j]),
    ensures
        forall|i: int| 0 <= i < a.len() ==> p(#[trigger] a[i]),
{
    assert forall|i: int| 0 <= i < a.len() implies p(#[trigger] a[i]) by {
        a.to_multiset_ensures();
        b.to_multiset_ensures();
        assert(a.contains(a[i]));
        assert(b.to_multiset().count(a[i]) > 0);
        assert(b.contains(a[i]));
    }
}

} // verus!
