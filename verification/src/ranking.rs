//! Ordering items by a key, largest first, keeping the input order among
//! equal keys (what a stable sort by descending key gives), and sums over
//! sequences.
use vstd::prelude::*;

verus! {

/// `v` stands somewhere in `order`.
pub open spec fn lists(order: Seq<usize>, v: int) -> bool {
    exists|i: int| 0 <= i < order.len() && #[trigger] order[i] == v
}

/// `order` lists each of `0..n` exactly once.
pub open spec fn is_permutation(order: Seq<usize>, n: int) -> bool {
    &&& order.len() == n
    &&& forall|i: int| 0 <= i < n ==> #[trigger] order[i] < n
    &&& forall|i: int, j: int| 0 <= i < j < n ==> order[i] != order[j]
    &&& forall|v: int| 0 <= v < n ==> #[trigger] lists(order, v)
}

/// `order` lists the positions of `keys` by descending key; positions with
/// equal keys keep their relative order.
pub open spec fn is_stable_descending(keys: Seq<usize>, order: Seq<usize>) -> bool {
    &&& is_permutation(order, keys.len() as int)
    &&& forall|i: int, j: int|
        0 <= i < j < order.len() ==> keys[#[trigger] order[i] as int] >= keys[#[trigger] order[j] as int]
    &&& forall|i: int, j: int|
        0 <= i < j < order.len() && keys[#[trigger] order[i] as int] == keys[#[trigger] order[j] as int]
            ==> order[i] < order[j]
}

/// The positions of `keys`, largest key first, equal keys in input order.
pub fn stable_descending_order(keys: &Vec<usize>) -> (order: Vec<usize>)
    ensures
        is_stable_descending(keys@, order@),
{
    let mut order: Vec<usize> = Vec::new();
    let mut i: usize = 0;
    while i < keys.len()
        invariant
            i <= keys@.len(),
            is_stable_descending(keys@.take(i as int), order@),
            forall|m: int| 0 <= m < order@.len() ==> #[trigger] order@[m] < i,
        decreases keys@.len() - i,
    {
        let ghost ks = keys@.take(i as int);
        let ghost old_order = order@;
        let ki = keys[i];
        let mut p: usize = 0;
        while p < order.len() && keys[order[p]] >= ki
            invariant
                p <= order@.len(),
                order@ == old_order,
                i < keys@.len(),
                ki == keys@[i as int],
                forall|m: int| 0 <= m < order@.len() ==> #[trigger] order@[m] < i,
                forall|m: int| 0 <= m < p ==> keys@[#[trigger] order@[m] as int] >= ki,
            decreases order@.len() - p,
        {
            p = p + 1;
        }
        proof {
            assert forall|m: int| p <= m < old_order.len() implies keys@[#[trigger] old_order[m] as int]
                < ki by {
                assert(keys@[old_order[p as int] as int] < ki);
                if m > p {
                    assert(ks[old_order[p as int] as int] >= ks[old_order[m] as int]);
                }
            }
        }
        order.insert(p, i);
        proof {
            let ks1 = keys@.take(i + 1);
            let new_order = order@;
            assert(new_order == old_order.insert(p as int, i));
            assert forall|m: int| 0 <= m < new_order.len() implies (#[trigger] new_order[m] < i + 1)
                && (m < p ==> new_order[m] == old_order[m]) && (m == p ==> new_order[m] == i) && (m
                > p ==> new_order[m] == old_order[m - 1]) by {}
            assert forall|m: int| 0 <= m < old_order.len() implies ks1[old_order[m] as int]
                == ks[old_order[m] as int] by {}
            assert(ks1[i as int] == ki);
            assert forall|v: int| 0 <= v < i + 1 implies #[trigger] lists(new_order, v) by {
                if v == i {
                    assert(new_order[p as int] == v);
                } else {
                    assert(lists(old_order, v));
                    let q = choose|q: int| 0 <= q < old_order.len() && #[trigger] old_order[q] == v;
                    if q < p {
                        assert(new_order[q] == v);
                    } else {
                        assert(new_order[q + 1] == v);
                    }
                }
            }
            assert forall|x: int, y: int| 0 <= x < y < i + 1 implies new_order[x] != new_order[y] by {
                if x < p && y < p {
                } else if x < p && y == p {
                } else if x < p && y > p {
                } else if x == p {
                } else {
                    assert(new_order[x] == old_order[x - 1]);
                    assert(new_order[y] == old_order[y - 1]);
                }
            }
            assert forall|x: int, y: int| 0 <= x < y < new_order.len() implies ks1[
                #[trigger] new_order[x] as int] >= ks1[#[trigger] new_order[y] as int] && (ks1[
                new_order[x] as int] == ks1[new_order[y] as int] ==> new_order[x] < new_order[y]) by {
                if y < p {
                    assert(ks[old_order[x] as int] >= ks[old_order[y] as int]);
                } else if y == p {
                    assert(keys@[old_order[x] as int] >= ki);
                } else if x < p {
                    assert(ks[old_order[x] as int] >= ks[old_order[y - 1] as int]);
                } else if x == p {
                    assert(keys@[old_order[y - 1] as int] < ki);
                } else {
                    assert(ks[old_order[x - 1] as int] >= ks[old_order[y - 1] as int]);
                }
            }
        }
        i = i + 1;
    }
    assert(keys@.take(keys@.len() as int) =~= keys@);
    order
}

/// The sum of `f` over the items of `s`.
pub open spec fn sum_of<T>(s: Seq<T>, f: spec_fn(T) -> int) -> int
    decreases s.len(),
{
    if s.len() == 0 {
        0
    } else {
        sum_of(s.drop_last(), f) + f(s.last())
    }
}

/// Appending an item adds its value to the sum.
pub proof fn lemma_sum_push<T>(s: Seq<T>, x: T, f: spec_fn(T) -> int)
    ensures
        sum_of(s.push(x), f) == sum_of(s, f) + f(x),
{
    assert(s.push(x).drop_last() =~= s);
}

/// Replacing an item changes the sum by the difference of the values.
pub proof fn lemma_sum_update<T>(s: Seq<T>, g: int, x: T, f: spec_fn(T) -> int)
    requires
        0 <= g < s.len(),
    ensures
        sum_of(s.update(g, x), f) == sum_of(s, f) - f(s[g]) + f(x),
    decreases s.len(),
{
    let t = s.update(g, x);
    if g == s.len() - 1 {
        assert(t.drop_last() =~= s.drop_last());
    } else {
        assert(t.drop_last() =~= s.drop_last().update(g, x));
        lemma_sum_update(s.drop_last(), g, x, f);
    }
}

/// With values that are never negative, each value is at most the sum, and
/// the sum of a prefix is at most the sum.
pub proof fn lemma_sum_bounds<T>(s: Seq<T>, f: spec_fn(T) -> int, g: int, n: int)
    requires
        forall|i: int| 0 <= i < s.len() ==> f(#[trigger] s[i]) >= 0,
        0 <= n <= s.len(),
    ensures
        0 <= g < s.len() ==> f(s[g]) <= sum_of(s, f),
        0 <= sum_of(s.take(n), f) <= sum_of(s, f),
    decreases s.len(),
{
    if s.len() > 0 {
        let d = s.drop_last();
        if n == s.len() {
            assert(s.take(n) =~= s);
            lemma_sum_bounds(d, f, g, d.len() as int);
        } else {
            assert(s.take(n) =~= d.take(n));
            lemma_sum_bounds(d, f, g, n);
        }
    } else {
        assert(s.take(n) =~= s);
    }
}

/// Removing an item takes its value off the sum.
pub proof fn lemma_sum_remove<T>(s: Seq<T>, p: int, f: spec_fn(T) -> int)
    requires
        0 <= p < s.len(),
    ensures
        sum_of(s, f) == sum_of(s.remove(p), f) + f(s[p]),
    decreases s.len(),
{
    if p == s.len() - 1 {
        assert(s.remove(p) =~= s.drop_last());
    } else {
        assert(s.remove(p).drop_last() =~= s.drop_last().remove(p));
        assert(s.remove(p).last() == s.last());
        lemma_sum_remove(s.drop_last(), p, f);
    }
}

/// The items of `s` in the order given by `order`.
pub open spec fn permuted<T>(s: Seq<T>, order: Seq<usize>) -> Seq<T> {
    Seq::new(order.len(), |i: int| s[order[i] as int])
}

/// Putting the items in another order keeps their sum.
pub proof fn lemma_sum_permuted<T>(s: Seq<T>, order: Seq<usize>, f: spec_fn(T) -> int)
    requires
        is_permutation(order, s.len() as int),
    ensures
        sum_of(permuted(s, order), f) == sum_of(s, f),
    decreases s.len(),
{
    let n = s.len() as int;
    if n > 0 {
        assert(lists(order, n - 1));
        let p = choose|p: int| 0 <= p < order.len() && #[trigger] order[p] == n - 1;
        let order2 = order.remove(p);
        let d = s.drop_last();
        assert forall|i: int| 0 <= i < n - 1 implies #[trigger] order2[i] < n - 1 by {
            if i < p {
                assert(order2[i] == order[i]);
            } else {
                assert(order2[i] == order[i + 1]);
            }
        }
        assert forall|i: int, j: int| 0 <= i < j < n - 1 implies order2[i] != order2[j] by {
            let a = if i < p { i } else { i + 1 };
            let b = if j < p { j } else { j + 1 };
            assert(order2[i] == order[a]);
            assert(order2[j] == order[b]);
        }
        assert forall|v: int| 0 <= v < n - 1 implies #[trigger] lists(order2, v) by {
            assert(lists(order, v));
            let q = choose|q: int| 0 <= q < order.len() && #[trigger] order[q] == v;
            if q < p {
                assert(order2[q] == v);
            } else {
                assert(order2[q - 1] == v);
            }
        }
        lemma_sum_permuted(d, order2, f);
        let t = permuted(s, order);
        lemma_sum_remove(t, p, f);
        assert(t.remove(p) =~= permuted(d, order2));
    } else {
        assert(permuted(s, order) =~= s);
    }
}

} // verus!
