//! Stable sorting by a ranking.

use vstd::prelude::*;

verus! {

/// Things that a list can be sorted by.
pub trait Ranked: Sized {
    /// Whether the one has to stand before the other.
    spec fn ranks_before(&self, other: &Self) -> bool;

    fn is_ranked_before(&self, other: &Self) -> (r: bool)
        ensures
            r == self.ranks_before(other),
    ;
}

/// The first position from `i` on whose entry has to stand behind `x`, or the end.
pub open spec fn slot<T: Ranked>(s: Seq<T>, x: T, i: int) -> int
    decreases s.len() - i,
{
    if 0 <= i < s.len() && !x.ranks_before(&s[i]) {
        slot(s, x, i + 1)
    } else {
        i
    }
}

/// The sorted list of the first `n` entries: each is put behind those that need not stand behind it.
pub open spec fn ranked<T: Ranked>(s: Seq<T>, n: int) -> Seq<T>
    decreases n,
{
    if n <= 0 || n > s.len() {
        Seq::empty()
    } else {
        let before = ranked(s, n - 1);
        before.insert(slot(before, s[n - 1], 0), s[n - 1])
    }
}

pub open spec fn sorted<T: Ranked>(s: Seq<T>) -> Seq<T> {
    ranked(s, s.len() as int)
}

pub proof fn lemma_slot<T: Ranked>(s: Seq<T>, x: T, i: int)
    requires
        0 <= i <= s.len(),
    ensures
        i <= slot(s, x, i) <= s.len(),
        forall|j: int| #![trigger s[j]] i <= j < slot(s, x, i) ==> !x.ranks_before(&s[j]),
        slot(s, x, i) < s.len() ==> x.ranks_before(&s[slot(s, x, i)]),
    decreases s.len() - i,
{
    if i < s.len() && !x.ranks_before(&s[i]) {
        lemma_slot(s, x, i + 1);
    }
}

/// Sorts a list by its ranking; entries that rank alike keep their order.
pub fn sort_ranked<T: Ranked>(items: Vec<T>) -> (r: Vec<T>)
    ensures
        r@ == sorted(items@),
{
    let ghost all = items@;
    let mut rest: Vec<T> = items;
    let mut out: Vec<T> = Vec::new();
    let ghost mut n: int = 0;
    assert(all.skip(0) =~= all);
    while rest.len() > 0
        invariant
            0 <= n <= all.len(),
            rest@ == all.skip(n),
            out@ == ranked(all, n),
        decreases rest.len(),
    {
        assert(rest@[0] == all[n]);
        let x: T = rest.remove(0);
        let mut p: usize = 0;
        while p < out.len() && !x.is_ranked_before(&out[p])
            invariant
                p <= out.len(),
                slot(out@, x, p as int) == slot(out@, x, 0),
            decreases out.len() - p,
        {
            p = p + 1;
        }
        out.insert(p, x);
        proof {
            assert(rest@ =~= all.skip(n + 1));
            n = n + 1;
        }
    }
    out
}

/// Whether a ranking is a strict weak order.
pub open spec fn is_ranking<T: Ranked>() -> bool {
    &&& forall|a: T, b: T| #[trigger] a.ranks_before(&b) ==> !b.ranks_before(&a)
    &&& forall|a: T, b: T, c: T|
        #![trigger a.ranks_before(&b), b.ranks_before(&c)]
        !a.ranks_before(&b) && !b.ranks_before(&c) ==> !a.ranks_before(&c)
}

/// Whether no entry has to stand before an earlier one.
pub open spec fn in_order<T: Ranked>(s: Seq<T>) -> bool {
    forall|i: int, j: int|
        #![trigger s[i], s[j]]
        0 <= i < j < s.len() ==> !s[j].ranks_before(&s[i])
}

proof fn lemma_insert_in_order<T: Ranked>(s: Seq<T>, x: T)
    requires
        is_ranking::<T>(),
        in_order(s),
    ensures
        in_order(s.insert(slot(s, x, 0), x)),
{
    lemma_slot(s, x, 0);
    let p = slot(s, x, 0);
    let t = s.insert(p, x);
    assert forall|i: int, j: int|
        #![trigger t[i], t[j]]
        0 <= i < j < t.len() implies !t[j].ranks_before(&t[i]) by {
        if j < p {
            assert(t[i] == s[i] && t[j] == s[j]);
        } else if j == p {
            assert(t[i] == s[i] && t[j] == x);
        } else if i == p {
            assert(t[i] == x && t[j] == s[j - 1]);
            assert(x.ranks_before(&s[p]));
            assert(!s[p].ranks_before(&x));
            if j - 1 > p {
                assert(!s[j - 1].ranks_before(&s[p]));
            }
        } else if i < p {
            assert(t[i] == s[i] && t[j] == s[j - 1]);
        } else {
            assert(t[i] == s[i - 1] && t[j] == s[j - 1]);
        }
    }
}

/// Sorting orders the list.
pub proof fn law_sorted_in_order<T: Ranked>(s: Seq<T>, n: int)
    requires
        is_ranking::<T>(),
        0 <= n <= s.len(),
    ensures
        in_order(ranked(s, n)),
    decreases n,
{
    if n > 0 {
        law_sorted_in_order(s, n - 1);
        lemma_insert_in_order(ranked(s, n - 1), s[n - 1]);
    }
}

/// Sorting keeps the entries of the list, each as often as it was there.
pub proof fn law_sorted_keeps_entries<T: Ranked>(s: Seq<T>, n: int)
    requires
        0 <= n <= s.len(),
    ensures
        ranked(s, n).to_multiset() == s.take(n).to_multiset(),
        ranked(s, n).len() == n,
    decreases n,
{
    if n > 0 {
        law_sorted_keeps_entries(s, n - 1);
        let before = ranked(s, n - 1);
        let x = s[n - 1];
        lemma_slot(before, x, 0);
        before.to_multiset_ensures();
        s.take(n - 1).to_multiset_ensures();
        assert(s.take(n) =~= s.take(n - 1).push(x));
        vstd::seq_lib::to_multiset_insert(before, slot(before, x, 0), x);
    } else {
        assert(s.take(0) =~= Seq::<T>::empty());
    }
}

/// Whether numbers are positions below `n`, in rising order.
pub open spec fn are_positions(at: Seq<int>, n: int) -> bool {
    &&& forall|k: int| 0 <= k < at.len() ==> 0 <= #[trigger] at[k] < n
    &&& forall|k: int, m: int| 0 <= k < m < at.len() ==> #[trigger] at[k] < #[trigger] at[m]
}

/// Another position behind the others.
pub proof fn lemma_next_position(at: Seq<int>, n: int)
    requires
        are_positions(at, n),
        0 <= n,
    ensures
        are_positions(at, n + 1),
        are_positions(at.push(n), n + 1),
        at.push(n).contains(n),
        forall|i: int| at.contains(i) ==> #[trigger] at.push(n).contains(i),
{
    let more = at.push(n);
    assert(more[at.len() as int] == n);
    assert forall|i: int| at.contains(i) implies #[trigger] more.contains(i) by {
        let k = choose|k: int| 0 <= k < at.len() && at[k] == i;
        assert(more[k] == i);
    }
}

} // verus!
