use vstd::prelude::*;

verus! {

broadcast use vstd::seq_lib::group_to_multiset_ensures;

/// `s` with the elements at positions `i` and `j` exchanged.
pub open spec fn swapped<T>(s: Seq<T>, i: int, j: int) -> Seq<T> {
    s.update(i, s[j]).update(j, s[i])
}

/// The Fisher–Yates passes over positions `hi - 1` down to `1` applied to `s`:
/// the pass at position `i` exchanges it with position `draws[i]`.
pub open spec fn shuffled_from<T>(s: Seq<T>, draws: Seq<usize>, hi: int) -> Seq<T>
    decreases hi,
{
    if hi <= 1 {
        s
    } else {
        shuffled_from(swapped(s, hi - 1, draws[hi - 1] as int), draws, hi - 1)
    }
}

/// The order that a Fisher–Yates shuffle of `s` with the random picks `draws` produces.
pub open spec fn fisher_yates<T>(s: Seq<T>, draws: Seq<usize>) -> Seq<T> {
    shuffled_from(s, draws, s.len() as int)
}

/// `draws` holds, for every position `i` in `1..n`, a pick `draws[i]` in `0..=i`:
/// what a uniform random pick per step of a Fisher–Yates shuffle of `n` items gives.
pub open spec fn valid_draws(n: int, draws: Seq<usize>) -> bool {
    forall|i: int| 1 <= i < n ==> i < draws.len() && #[trigger] draws[i] <= i
}

/// Exchanges two elements of a slice.
///
/// Trusted: calls `<[T]>::swap`, which the standard library documents as
/// swapping the elements at the two positions (and panicking when either is
/// out of bounds, which `requires` excludes).
#[verifier::external_body]
fn slice_swap<T>(items: &mut [T], i: usize, j: usize)
    requires
        i < old(items)@.len(),
        j < old(items)@.len(),
    ensures
        final(items)@ == swapped(old(items)@, i as int, j as int),
{
    items.swap(i, j);
}

/// Shuffles `items` in place by Fisher–Yates: for `i` from the last position
/// down to `1`, the element at `i` is exchanged with the one at `draws[i]`.
/// The random picks are made by the caller, one per position, each in `0..=i`.
pub fn shuffle_in_place<T>(items: &mut [T], draws: &[usize])
    requires
        valid_draws(old(items)@.len() as int, draws@),
    ensures
        final(items)@ == fisher_yates(old(items)@, draws@),
{
    let n = items.len();
    if n < 2 {
        return;
    }
    let ghost orig = items@;
    let mut hi: usize = n;
    while hi > 1
        invariant
            1 <= hi <= n,
            n == items@.len(),
            orig.len() == n,
            valid_draws(n as int, draws@),
            shuffled_from(orig, draws@, n as int) == shuffled_from(items@, draws@, hi as int),
        decreases hi,
    {
        let i = hi - 1;
        assert(1 <= i < n);
        assert(draws@[i as int] <= i);
        let j = draws[i];
        slice_swap(items, i, j);
        hi = i;
    }
}

/// A copy of `items` shuffled by [`shuffle_in_place`]; `items` is left as it is.
pub fn shuffle_copy<T: Clone>(items: &[T], draws: &[usize]) -> (out: Vec<T>)
    requires
        valid_draws(items@.len() as int, draws@),
    ensures
        exists|copy: Seq<T>|
            {
                &&& copy.len() == items@.len()
                &&& forall|k: int| 0 <= k < copy.len() ==> cloned(#[trigger] items@[k], copy[k])
                &&& out@ == fisher_yates(copy, draws@)
            },
{
    let mut copy: Vec<T> = Vec::new();
    let mut k: usize = 0;
    while k < items.len()
        invariant
            k <= items@.len(),
            copy@.len() == k,
            forall|m: int| 0 <= m < k ==> cloned(#[trigger] items@[m], copy@[m]),
        decreases items@.len() - k,
    {
        let c = items[k].clone();
        copy.push(c);
        k = k + 1;
    }
    shuffle_in_place(copy.as_mut_slice(), draws);
    copy
}

/// One of `items`, chosen by the caller's random pick `draw`; `None` when there
/// are no items.
pub fn pick_random(items: &[String], draw: usize) -> (r: Option<String>)
    requires
        items@.len() > 0 ==> draw < items@.len(),
    ensures
        items@.len() == 0 ==> r is None,
        items@.len() > 0 ==> r == Some(items@[draw as int]),
{
    if items.len() == 0 {
        return None;
    }
    Some(items[draw].clone())
}

/// A Fisher–Yates shuffle only reorders: the shuffled sequence holds the same
/// elements, each as many times, as the original.
pub proof fn lemma_shuffle_is_permutation<T>(s: Seq<T>, draws: Seq<usize>)
    requires
        valid_draws(s.len() as int, draws),
    ensures
        fisher_yates(s, draws).len() == s.len(),
        fisher_yates(s, draws).to_multiset() == s.to_multiset(),
{
    lemma_shuffled_from_permutes(s, draws, s.len() as int);
}

proof fn lemma_shuffled_from_permutes<T>(s: Seq<T>, draws: Seq<usize>, hi: int)
    requires
        hi <= s.len(),
        valid_draws(s.len() as int, draws),
    ensures
        shuffled_from(s, draws, hi).len() == s.len(),
        shuffled_from(s, draws, hi).to_multiset() == s.to_multiset(),
    decreases hi,
{
    if hi > 1 {
        let i = hi - 1;
        let j = draws[i] as int;
        lemma_swap_permutes(s, i, j);
        lemma_shuffled_from_permutes(swapped(s, i, j), draws, hi - 1);
    }
}

/// Exchanging two elements keeps the multiset of elements.
pub proof fn lemma_swap_permutes<T>(s: Seq<T>, i: int, j: int)
    requires
        0 <= i < s.len(),
        0 <= j < s.len(),
    ensures
        swapped(s, i, j).len() == s.len(),
        swapped(s, i, j).to_multiset() == s.to_multiset(),
{
    let t = s.update(i, s[j]);
    vstd::seq_lib::to_multiset_update(s, i, s[j]);
    vstd::seq_lib::to_multiset_update(t, j, s[i]);
    assert(s.to_multiset().count(s[i]) > 0);
    assert(t[j] == s[j]);
    assert(swapped(s, i, j).to_multiset() =~= s.to_multiset());
}

/// The passes below `hi` leave every position from `hi` on as it is.
proof fn lemma_shuffled_from_keeps_tail<T>(s: Seq<T>, draws: Seq<usize>, hi: int, k: int)
    requires
        valid_draws(s.len() as int, draws),
        hi <= k < s.len(),
    ensures
        shuffled_from(s, draws, hi).len() == s.len(),
        shuffled_from(s, draws, hi)[k] == s[k],
    decreases hi,
{
    if hi > 1 {
        let t = swapped(s, hi - 1, draws[hi - 1] as int);
        lemma_shuffled_from_keeps_tail(t, draws, hi - 1, k);
    }
}

/// Exchanging two elements keeps the elements pairwise distinct.
proof fn lemma_swap_keeps_distinct<T>(s: Seq<T>, i: int, j: int)
    requires
        0 <= i < s.len(),
        0 <= j < s.len(),
        s.no_duplicates(),
    ensures
        swapped(s, i, j).no_duplicates(),
{
    let t = swapped(s, i, j);
    assert forall|a: int, b: int| 0 <= a < t.len() && 0 <= b < t.len() && a != b implies t[a]
        != t[b] by {
        let pa = if a == j { i } else if a == i { j } else { a };
        let pb = if b == j { i } else if b == i { j } else { b };
        assert(t[a] == s[pa]);
        assert(t[b] == s[pb]);
    }
}

proof fn lemma_shuffled_from_injective<T>(s: Seq<T>, d1: Seq<usize>, d2: Seq<usize>, hi: int)
    requires
        s.no_duplicates(),
        hi <= s.len(),
        valid_draws(s.len() as int, d1),
        valid_draws(s.len() as int, d2),
        shuffled_from(s, d1, hi) == shuffled_from(s, d2, hi),
    ensures
        forall|i: int| 1 <= i < hi ==> d1[i] == d2[i],
    decreases hi,
{
    if hi > 1 {
        let i = hi - 1;
        let t1 = swapped(s, i, d1[i] as int);
        let t2 = swapped(s, i, d2[i] as int);
        lemma_shuffled_from_keeps_tail(t1, d1, i, i);
        lemma_shuffled_from_keeps_tail(t2, d2, i, i);
        assert(t1[i] == s[d1[i] as int]);
        assert(t2[i] == s[d2[i] as int]);
        assert(d1[i] == d2[i]);
        assert(t1 == t2);
        lemma_swap_keeps_distinct(s, i, d1[i] as int);
        lemma_shuffled_from_injective(t1, d1, d2, i);
    }
}

/// On pairwise distinct elements, the order a Fisher–Yates shuffle produces
/// determines every random pick: two sequences of picks that differ at some
/// position in `1..n` give two different orders.
pub proof fn lemma_shuffle_picks_determine_order<T>(s: Seq<T>, d1: Seq<usize>, d2: Seq<usize>)
    requires
        s.no_duplicates(),
        valid_draws(s.len() as int, d1),
        valid_draws(s.len() as int, d2),
        fisher_yates(s, d1) == fisher_yates(s, d2),
    ensures
        forall|i: int| 1 <= i < s.len() ==> d1[i] == d2[i],
{
    lemma_shuffled_from_injective(s, d1, d2, s.len() as int);
}

/// `x` is at one of the positions below `hi` of `cur`.
spec fn occurs_below<T>(cur: Seq<T>, x: T, hi: int) -> bool {
    exists|j: int| 0 <= j < hi && cur[j] == x
}

/// The positions below `hi` of `cur` hold every element at the positions
/// below `hi` of `t`, and the positions from `hi` on agree.
spec fn settled_from<T>(cur: Seq<T>, t: Seq<T>, hi: int) -> bool {
    &&& cur.len() == t.len()
    &&& 0 <= hi <= cur.len()
    &&& forall|k: int| hi <= k < cur.len() ==> #[trigger] cur[k] == t[k]
    &&& forall|k: int| 0 <= k < hi ==> #[trigger] occurs_below(cur, t[k], hi)
}

/// Picks for the passes below `hi` that turn `cur` into `t`; the picks from
/// `hi` on are those of `draws`.
proof fn picks_reaching<T>(cur: Seq<T>, t: Seq<T>, draws: Seq<usize>, hi: int) -> (d: Seq<usize>)
    requires
        cur.no_duplicates(),
        t.no_duplicates(),
        cur.len() <= usize::MAX,
        settled_from(cur, t, hi),
        draws.len() == cur.len(),
        valid_draws(cur.len() as int, draws),
    ensures
        d.len() == cur.len(),
        valid_draws(cur.len() as int, d),
        forall|k: int| hi <= k < d.len() ==> #[trigger] d[k] == draws[k],
        shuffled_from(cur, d, hi) == t,
    decreases hi,
{
    if hi <= 1 {
        if hi == 1 {
            assert(occurs_below(cur, t[0], 1));
            assert(cur[0] == t[0]);
        }
        assert(cur =~= t);
        draws
    } else {
        let i = hi - 1;
        assert(occurs_below(cur, t[i], hi));
        let j = choose|j: int| 0 <= j < hi && cur[j] == t[i];
        let next = swapped(cur, i, j);
        let d1 = draws.update(i, j as usize);
        lemma_swap_keeps_distinct(cur, i, j);
        assert(next[i] == t[i]);
        assert forall|k: int| 0 <= k < i implies #[trigger] occurs_below(next, t[k], i) by {
            assert(occurs_below(cur, t[k], hi));
            let p = choose|p: int| 0 <= p < hi && cur[p] == t[k];
            assert(t[k] != t[i]);
            if p == i {
                assert(j != i);
                assert(next[j] == t[k]);
            } else {
                assert(p != j);
                assert(next[p] == t[k]);
            }
        }
        assert forall|k: int| i <= k < next.len() implies #[trigger] next[k] == t[k] by {
            if k > i {
                assert(next[k] == cur[k]);
            }
        }
        assert(settled_from(next, t, i));
        assert(valid_draws(cur.len() as int, d1)) by {
            assert forall|k: int| 1 <= k < cur.len() implies k < d1.len() && #[trigger] d1[k]
                <= k by {
                if k != i {
                    assert(d1[k] == draws[k]);
                }
            }
        }
        let d = picks_reaching(next, t, d1, i);
        assert(d[i] == j as usize);
        d
    }
}

/// Every reordering of pairwise distinct elements is the outcome of some
/// valid sequence of Fisher–Yates picks.
pub proof fn lemma_every_order_reachable<T>(s: Seq<T>, t: Seq<T>)
    requires
        s.no_duplicates(),
        s.len() <= usize::MAX,
        t.len() == s.len(),
        t.to_multiset() == s.to_multiset(),
    ensures
        exists|draws: Seq<usize>| valid_draws(s.len() as int, draws) && fisher_yates(s, draws) == t,
{
    assert forall|k: int| 0 <= k < t.len() implies s.contains(#[trigger] t[k]) by {
        assert(t.contains(t[k]));
        assert(t.to_multiset().count(t[k]) > 0);
    }
    assert(t.no_duplicates()) by {
        assert forall|a: int, b: int| 0 <= a < t.len() && 0 <= b < t.len() && a != b implies t[a]
            != t[b] by {
            if t[a] == t[b] {
                lemma_count_two(t, a, b);
                lemma_count_at_most_one(s, t[a]);
            }
        }
    }
    assert forall|k: int| 0 <= k < s.len() implies #[trigger] occurs_below(s, t[k], s.len() as int) by {
        assert(s.contains(t[k]));
    }
    assert(settled_from(s, t, s.len() as int));
    let zeros = Seq::new(s.len(), |i: int| 0usize);
    let d = picks_reaching(s, t, zeros, s.len() as int);
    assert(valid_draws(s.len() as int, d) && fisher_yates(s, d) == t);
}

/// An element at two positions is counted at least twice.
proof fn lemma_count_two<T>(s: Seq<T>, a: int, b: int)
    requires
        0 <= a < s.len(),
        0 <= b < s.len(),
        a != b,
        s[a] == s[b],
    ensures
        s.to_multiset().count(s[a]) >= 2,
    decreases s.len(),
{
    broadcast use vstd::multiset::group_multiset_axioms;

    let x = s[a];
    let l = s.len() - 1;
    let init = s.drop_last();
    assert(s =~= init.push(s.last()));
    vstd::seq_lib::to_multiset_build(init, s.last());
    if a == l || b == l {
        let other = if a == l { b } else { a };
        assert(init[other] == x);
        assert(init.contains(x));
        assert(init.to_multiset().count(x) >= 1);
        assert(s.to_multiset() =~= init.to_multiset().insert(s.last()));
    } else {
        assert(init[a] == x && init[b] == x);
        lemma_count_two(init, a, b);
        assert(s.to_multiset() =~= init.to_multiset().insert(s.last()));
    }
}

/// In pairwise distinct elements each is counted at most once.
proof fn lemma_count_at_most_one<T>(s: Seq<T>, x: T)
    requires
        s.no_duplicates(),
    ensures
        s.to_multiset().count(x) <= 1,
    decreases s.len(),
{
    broadcast use vstd::multiset::group_multiset_axioms;

    if s.len() > 0 {
        let init = s.drop_last();
        assert(s =~= init.push(s.last()));
        assert(init.no_duplicates());
        lemma_count_at_most_one(init, x);
        vstd::seq_lib::to_multiset_build(init, s.last());
        assert(s.to_multiset() =~= init.to_multiset().insert(s.last()));
        if x == s.last() {
            assert(!init.contains(x)) by {
                if init.contains(x) {
                    let p = choose|p: int| 0 <= p < init.len() && init[p] == x;
                    assert(s[p] == s[s.len() - 1]);
                }
            }
            assert(init.to_multiset().count(x) == 0);
        }
    }
}

} // verus!
