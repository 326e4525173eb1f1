//! Stable sorting by rank.

use vstd::prelude::*;
use vstd::seq_lib::*;

verus! {

/// A type whose values are ordered by a number.
pub trait Ranked: Sized {
    /// The number that the value is ordered by.
    spec fn rank(self) -> int;

    /// Whether the value may stand before `other`.
    fn not_after(&self, other: &Self) -> (r: bool)
        ensures
            r == (self.rank() <= other.rank()),
    ;
}

/// `s` with `x` placed behind the last element of no higher rank.
pub open spec fn place<T: Ranked>(s: Seq<T>, x: T) -> Seq<T>
    decreases s.len(),
{
    if s.len() == 0 {
        seq![x]
    } else if s.last().rank() <= x.rank() {
        s.push(x)
    } else {
        place(s.drop_last(), x).push(s.last())
    }
}

/// The elements of `s` by rank; those of equal rank in the order of `s`.
pub open spec fn by_rank<T: Ranked>(s: Seq<T>) -> Seq<T>
    decreases s.len(),
{
    if s.len() == 0 {
        s
    } else {
        place(by_rank(s.drop_last()), s.last())
    }
}

/// Whether no element stands before one of lower rank.
pub open spec fn is_sorted<T: Ranked>(s: Seq<T>) -> bool {
    forall|i: int, j: int| 0 <= i <= j < s.len() ==> s[i].rank() <= s[j].rank()
}

/// Selects the elements of rank `k`.
pub open spec fn of_rank<T: Ranked>(k: int) -> spec_fn(T) -> bool {
    |x: T| x.rank() == k
}

proof fn lemma_place_at<T: Ranked>(s: Seq<T>, x: T, pos: int)
    requires
        0 <= pos <= s.len(),
        pos > 0 ==> s[pos - 1].rank() <= x.rank(),
        forall|i: int| pos <= i < s.len() ==> (#[trigger] s[i]).rank() > x.rank(),
    ensures
        place(s, x) == s.insert(pos, x),
    decreases s.len(),
{
    if s.len() == 0 {
        assert(s.insert(pos, x) =~= seq![x]);
    } else if pos == s.len() {
        assert(s.insert(pos, x) =~= s.push(x));
    } else {
        assert(s[s.len() - 1].rank() > x.rank());
        lemma_place_at(s.drop_last(), x, pos);
        assert(s.insert(pos, x) =~= s.drop_last().insert(pos, x).push(s.last()));
    }
}

proof fn lemma_place<T: Ranked>(s: Seq<T>, x: T)
    requires
        is_sorted(s),
    ensures
        is_sorted(place(s, x)),
        place(s, x).to_multiset() == s.to_multiset().insert(x),
        place(s, x).len() == s.len() + 1,
        forall|i: int|
            0 <= i < s.len() + 1 ==> (#[trigger] place(s, x)[i]).rank() <= x.rank() || s.contains(
                place(s, x)[i],
            ),
    decreases s.len(),
{
    broadcast use group_to_multiset_ensures;

    if s.len() == 0 {
        assert(seq![x] =~= s.push(x));
    } else if s.last().rank() <= x.rank() {
    } else {
        let rest = s.drop_last();
        lemma_place(rest, x);
        let p = place(rest, x);
        assert(s =~= rest.push(s.last()));
        assert(p.push(s.last()).to_multiset() =~= s.to_multiset().insert(x));
        assert forall|i: int| 0 <= i < p.len() implies (#[trigger] p[i]).rank()
            <= s.last().rank() by {
            if p[i].rank() > x.rank() {
                assert(rest.contains(p[i]));
                let j = choose|j: int| 0 <= j < rest.len() && rest[j] == p[i];
                assert(s[j].rank() <= s[s.len() - 1].rank());
            }
        }
        assert forall|i: int| 0 <= i < p.push(s.last()).len() implies (#[trigger] p.push(
            s.last(),
        )[i]).rank() <= x.rank() || s.contains(p.push(s.last())[i]) by {
            if i == p.len() {
                assert(s[s.len() - 1] == p.push(s.last())[i]);
            } else {
                assert(p.push(s.last())[i] == p[i]);
                if p[i].rank() > x.rank() {
                    let j = choose|j: int| 0 <= j < rest.len() && rest[j] == p[i];
                    assert(s[j] == p[i]);
                }
            }
        }
    }
}

proof fn lemma_filter_push<T>(s: Seq<T>, x: T, f: spec_fn(T) -> bool)
    ensures
        s.push(x).filter(f) == if f(x) {
            s.filter(f).push(x)
        } else {
            s.filter(f)
        },
{
    assert(s.push(x).drop_last() =~= s);
    reveal(Seq::filter);
}

proof fn lemma_place_stable<T: Ranked>(s: Seq<T>, x: T, k: int)
    requires
        is_sorted(s),
    ensures
        place(s, x).filter(of_rank(k)) == s.push(x).filter(of_rank(k)),
    decreases s.len(),
{
    let f = of_rank::<T>(k);
    if s.len() == 0 {
        assert(seq![x] =~= s.push(x));
    } else if s.last().rank() <= x.rank() {
    } else {
        let rest = s.drop_last();
        lemma_place_stable(rest, x, k);
        lemma_filter_push(place(rest, x), s.last(), f);
        lemma_filter_push(rest, x, f);
        lemma_filter_push(rest, s.last(), f);
        lemma_filter_push(s, x, f);
        assert(s =~= rest.push(s.last()));
    }
}

/// Sorting by rank leaves no element before one of lower rank, neither loses
/// nor adds elements, and keeps the order among elements of equal rank.
pub proof fn sorting_is_stable<T: Ranked>(s: Seq<T>)
    ensures
        is_sorted(by_rank(s)),
        by_rank(s).to_multiset() == s.to_multiset(),
        by_rank(s).len() == s.len(),
        forall|k: int| #[trigger]
            by_rank(s).filter(of_rank(k)) == s.filter(of_rank(k)),
    decreases s.len(),
{
    broadcast use group_to_multiset_ensures;

    if s.len() > 0 {
        let rest = s.drop_last();
        sorting_is_stable(rest);
        lemma_place(by_rank(rest), s.last());
        assert(s =~= rest.push(s.last()));
        assert forall|k: int| #[trigger] by_rank(s).filter(of_rank(k)) == s.filter(of_rank(k)) by {
            lemma_place_stable(by_rank(rest), s.last(), k);
            lemma_filter_push(by_rank(rest), s.last(), of_rank::<T>(k));
            lemma_filter_push(rest, s.last(), of_rank::<T>(k));
            assert(by_rank(rest).filter(of_rank(k)) == rest.filter(of_rank(k)));
        }
    }
}

/// Sorts by rank.
pub fn sort_by_rank<T: Ranked>(v: &mut Vec<T>)
    ensures
        final(v)@ == by_rank(old(v)@),
{
    let ghost all = v@;
    let n: usize = v.len();
    let mut i: usize = 0;
    assert(all.take(0).len() == 0);
    assert(by_rank(all.take(0)) + all.skip(0) =~= all);
    while i < n
        invariant
            i <= n,
            n == all.len(),
            v@ == by_rank(all.take(i as int)) + all.skip(i as int),
            by_rank(all.take(i as int)).len() == i,
            is_sorted(by_rank(all.take(i as int))),
        decreases n - i,
    {
        let ghost front = by_rank(all.take(i as int));
        let ghost x0 = all[i as int];
        assert(v@[i as int] == x0);
        let x: T = v.remove(i);
        assert(v@ =~= front + all.skip(i as int + 1));
        let mut pos: usize = i;
        while pos > 0 && !v[pos - 1].not_after(&x)
            invariant
                pos <= i,
                i < n,
                n == all.len(),
                front.len() == i,
                v@ == front + all.skip(i as int + 1),
                x == x0,
                forall|j: int| pos <= j < i ==> (#[trigger] front[j]).rank() > x0.rank(),
            decreases pos,
        {
            assert(v@[pos - 1] == front[pos - 1]);
            pos -= 1;
        }
        proof {
            if pos > 0 {
                assert(v@[pos - 1] == front[pos - 1]);
            }
            lemma_place_at(front, x0, pos as int);
            assert(all.take(i as int + 1).drop_last() =~= all.take(i as int));
            sorting_is_stable(all.take(i as int + 1));
        }
        v.insert(pos, x);
        assert(v@ =~= front.insert(pos as int, x0) + all.skip(i as int + 1));
        i += 1;
    }
    assert(all.take(n as int) =~= all);
    assert(v@ =~= by_rank(all));
}

/// Values of different rank that are sorted stand in one order only.
pub proof fn sorted_listing_is_unique<T: Ranked>(a: Seq<T>, b: Seq<T>)
    requires
        is_sorted(a),
        is_sorted(b),
        a.no_duplicates(),
        b.no_duplicates(),
        a.to_set() == b.to_set(),
        forall|x: T, y: T| #[trigger] x.rank() == #[trigger] y.rank() ==> x == y,
    ensures
        a == b,
    decreases a.len(),
{
    a.unique_seq_to_set();
    b.unique_seq_to_set();
    if a.len() > 0 {
        let i = a.len() - 1;
        assert(a.to_set().contains(a[i]));
        assert(b.to_set().contains(a[i]));
        assert(b.to_set().contains(b[i]));
        assert(a.to_set().contains(b[i]));
        let k = choose|k: int| 0 <= k < b.len() && b[k] == a[i];
        let j = choose|j: int| 0 <= j < a.len() && a[j] == b[i];
        assert(b[k].rank() <= b[i].rank());
        assert(a[j].rank() <= a[i].rank());
        assert(a[i].rank() == b[i].rank());
        assert(a[i] == b[i]);
        let ra = a.drop_last();
        let rb = b.drop_last();
        assert forall|x: T| ra.to_set().contains(x) <==> rb.to_set().contains(x) by {
            if ra.contains(x) {
                let m = choose|m: int| 0 <= m < ra.len() && ra[m] == x;
                assert(a[m] == x);
                assert(b.to_set().contains(x));
                let n = choose|n: int| 0 <= n < b.len() && b[n] == x;
                assert(n != i);
                assert(rb[n] == x);
            }
            if rb.contains(x) {
                let m = choose|m: int| 0 <= m < rb.len() && rb[m] == x;
                assert(b[m] == x);
                assert(a.to_set().contains(x));
                let n = choose|n: int| 0 <= n < a.len() && a[n] == x;
                assert(n != i);
                assert(ra[n] == x);
            }
        }
        assert(ra.to_set() =~= rb.to_set());
        sorted_listing_is_unique(ra, rb);
        assert(a =~= ra.push(a[i]));
        assert(b =~= rb.push(b[i]));
    }
}

/// The same values, each once, in another order.
pub proof fn reordering_keeps_members<A>(a: Seq<A>, b: Seq<A>)
    requires
        a.to_multiset() == b.to_multiset(),
        a.no_duplicates(),
    ensures
        b.no_duplicates(),
        b.to_set() == a.to_set(),
{
    broadcast use group_to_multiset_ensures;

    a.lemma_multiset_has_no_duplicates();
    b.lemma_multiset_has_no_duplicates_conv();
    assert forall|x: A| a.contains(x) <==> b.contains(x) by {
        assert(a.contains(x) <==> a.to_multiset().count(x) > 0);
        assert(b.contains(x) <==> b.to_multiset().count(x) > 0);
    }
    assert(b.to_set() =~= a.to_set());
}

} // verus!
