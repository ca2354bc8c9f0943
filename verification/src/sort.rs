//! Stable chronological ordering of timestamped records.
use vstd::prelude::*;

verus! {

/// A record that carries a millisecond timestamp.
pub trait Timed {
    spec fn spec_time(&self) -> u64;

    fn time_ms(&self) -> (r: u64)
        ensures
            r == self.spec_time(),
    ;
}

/// Non-decreasing by timestamp.
pub open spec fn sorted_by_time<T: Timed>(s: Seq<T>) -> bool {
    forall|i: int, j: int| 0 <= i <= j < s.len() ==> s[i].spec_time() <= s[j].spec_time()
}

/// The records stamped exactly `k`.
pub open spec fn at_time<T: Timed>(k: u64) -> spec_fn(T) -> bool {
    |x: T| x.spec_time() == k
}

/// `r` is a stable chronological ordering of `v`: sorted by time, a
/// permutation of `v`, and records with equal timestamps keep their
/// original relative order.
pub open spec fn stable_time_order<T: Timed>(v: Seq<T>, r: Seq<T>) -> bool {
    &&& sorted_by_time(r)
    &&& r.to_multiset() == v.to_multiset()
    &&& forall|k: u64| #[trigger] r.filter(at_time::<T>(k)) == v.filter(at_time::<T>(k))
}

proof fn lemma_filter_empty_below<T: Timed>(s: Seq<T>, t: u64, k: u64)
    requires
        forall|m: int| 0 <= m < s.len() ==> #[trigger] s[m].spec_time() < t,
        k >= t,
    ensures
        s.filter(at_time::<T>(k)) == Seq::<T>::empty(),
    decreases s.len(),
{
    reveal_with_fuel(Seq::<_>::filter, 1);
    if s.len() > 0 {
        lemma_filter_empty_below(s.drop_last(), t, k);
    }
}

proof fn lemma_insert_keeps_order<T: Timed>(out: Seq<T>, j: int, x: T, suffix: Seq<T>)
    requires
        0 <= j <= out.len(),
        sorted_by_time(out),
        forall|m: int| 0 <= m < j ==> #[trigger] out[m].spec_time() < x.spec_time(),
        j < out.len() ==> out[j].spec_time() >= x.spec_time(),
        out.to_multiset() == suffix.to_multiset(),
        forall|k: u64| #[trigger] out.filter(at_time::<T>(k)) == suffix.filter(at_time::<T>(k)),
    ensures
        stable_time_order(seq![x] + suffix, out.insert(j, x)),
{
    broadcast use vstd::seq_lib::group_to_multiset_ensures;
    broadcast use vstd::seq::group_seq_axioms;
    let r = out.insert(j, x);
    assert forall|a: int, b: int| 0 <= a <= b < r.len() implies r[a].spec_time()
        <= r[b].spec_time() by {
        if a < j && b < j {
        } else if a < j && b == j {
        } else if a < j && b > j {
            assert(r[b] == out[b - 1]);
        } else if a == j && b == j {
        } else if a == j && b > j {
            assert(r[b] == out[b - 1]);
        } else {
            assert(r[a] == out[a - 1]);
            assert(r[b] == out[b - 1]);
        }
    }
    vstd::seq_lib::to_multiset_insert(out, j, x);
    vstd::seq_lib::lemma_multiset_commutative(seq![x], suffix);
    assert((seq![x] + suffix).to_multiset() == seq![x].to_multiset().add(suffix.to_multiset()));
    assert(seq![x].to_multiset() == Seq::<T>::empty().push(x).to_multiset()) by {
        assert(seq![x] == Seq::<T>::empty().push(x));
    }
    vstd::seq_lib::to_multiset_build(Seq::<T>::empty(), x);
    assert(r.to_multiset() =~= (seq![x] + suffix).to_multiset());
    let pre = out.take(j);
    let post = out.skip(j);
    assert(out == pre + post);
    assert(r == pre + seq![x] + post);
    assert forall|k: u64| #[trigger] r.filter(at_time::<T>(k)) == (seq![x] + suffix).filter(
        at_time::<T>(k),
    ) by {
        let p = at_time::<T>(k);
        suffix.lemma_filter_prepend(x, p);
        Seq::filter_distributes_over_add(pre + seq![x], post, p);
        Seq::filter_distributes_over_add(pre, seq![x], p);
        Seq::filter_distributes_over_add(pre, post, p);
        seq![x].lemma_filter_prepend(x, p);
        Seq::<T>::empty().lemma_filter_prepend(x, p);
        assert(seq![x] == seq![x] + Seq::<T>::empty());
        reveal_with_fuel(Seq::<_>::filter, 1);
        assert(Seq::<T>::empty().filter(p) == Seq::<T>::empty());
        if x.spec_time() == k {
            assert forall|m: int| 0 <= m < pre.len() implies #[trigger] pre[m].spec_time()
                < x.spec_time() by {
                assert(pre[m] == out[m]);
            }
            lemma_filter_empty_below(pre, x.spec_time(), k);
            assert(seq![x].filter(p) == seq![x]);
        } else {
            assert(seq![x].filter(p) == Seq::<T>::empty());
        }
    }
}

/// The stable chronological ordering of `v` (unique, see
/// `lemma_stable_order_unique`).
pub open spec fn time_sorted<T: Timed>(v: Seq<T>) -> Seq<T> {
    choose|r: Seq<T>| stable_time_order(v, r)
}

proof fn lemma_filter_last<T: Timed>(r: Seq<T>, k: u64)
    requires
        r.len() > 0,
        r.last().spec_time() == k,
    ensures
        r.filter(at_time::<T>(k)) == r.drop_last().filter(at_time::<T>(k)).push(r.last()),
{
    reveal_with_fuel(Seq::<_>::filter, 1);
}

proof fn lemma_filter_last_other<T: Timed>(r: Seq<T>, k: u64)
    requires
        r.len() > 0,
        r.last().spec_time() != k,
    ensures
        r.filter(at_time::<T>(k)) == r.drop_last().filter(at_time::<T>(k)),
{
    reveal_with_fuel(Seq::<_>::filter, 1);
}

proof fn lemma_filter_nonempty_has<T: Timed>(r: Seq<T>, k: u64)
    requires
        r.filter(at_time::<T>(k)).len() > 0,
    ensures
        exists|i: int| 0 <= i < r.len() && r[i].spec_time() == k,
{
    broadcast use vstd::seq_lib::group_filter_ensures;
    let f = r.filter(at_time::<T>(k));
    assert(at_time::<T>(k)(f[0]));
    assert(f.contains(f[0]));
    r.lemma_filter_contains_rev(at_time::<T>(k), f[0]);
}

/// Two time-sorted sequences with the same records at every timestamp, in
/// the same order, are equal.
pub proof fn lemma_sorted_filters_determine<T: Timed>(r1: Seq<T>, r2: Seq<T>)
    requires
        sorted_by_time(r1),
        sorted_by_time(r2),
        forall|k: u64| #[trigger] r1.filter(at_time::<T>(k)) == r2.filter(at_time::<T>(k)),
    ensures
        r1 == r2,
    decreases r1.len() + r2.len(),
{
    if r1.len() == 0 && r2.len() == 0 {
        assert(r1 =~= r2);
    } else if r1.len() == 0 {
        let k = r2.last().spec_time();
        lemma_filter_last(r2, k);
        assert(r1.filter(at_time::<T>(k)) == r2.filter(at_time::<T>(k)));
        reveal_with_fuel(Seq::<_>::filter, 1);
    } else if r2.len() == 0 {
        let k = r1.last().spec_time();
        lemma_filter_last(r1, k);
        assert(r1.filter(at_time::<T>(k)) == r2.filter(at_time::<T>(k)));
        reveal_with_fuel(Seq::<_>::filter, 1);
    } else {
        let m1 = r1.last().spec_time();
        let m2 = r2.last().spec_time();
        lemma_filter_last(r1, m1);
        lemma_filter_last(r2, m2);
        assert(r1.filter(at_time::<T>(m1)) == r2.filter(at_time::<T>(m1)));
        assert(r1.filter(at_time::<T>(m2)) == r2.filter(at_time::<T>(m2)));
        lemma_filter_nonempty_has(r2, m1);
        lemma_filter_nonempty_has(r1, m2);
        let i2 = choose|i: int| 0 <= i < r2.len() && r2[i].spec_time() == m1;
        let i1 = choose|i: int| 0 <= i < r1.len() && r1[i].spec_time() == m2;
        assert(r2[i2].spec_time() <= r2[r2.len() - 1].spec_time());
        assert(r1[i1].spec_time() <= r1[r1.len() - 1].spec_time());
        assert(m1 == m2);
        let f1 = r1.filter(at_time::<T>(m1));
        let f2 = r2.filter(at_time::<T>(m1));
        assert(f1 == r1.drop_last().filter(at_time::<T>(m1)).push(r1.last()));
        assert(f2 == r2.drop_last().filter(at_time::<T>(m1)).push(r2.last()));
        assert(f1.last() == r1.last());
        assert(f2.last() == r2.last());
        assert(r1.last() == r2.last());
        let d1 = r1.drop_last();
        let d2 = r2.drop_last();
        assert forall|k: u64| #[trigger] d1.filter(at_time::<T>(k)) == d2.filter(at_time::<T>(k)) by {
            assert(r1.filter(at_time::<T>(k)) == r2.filter(at_time::<T>(k)));
            if k == m1 {
                lemma_filter_last(r1, k);
                lemma_filter_last(r2, k);
                assert(d1.filter(at_time::<T>(k)) == r1.filter(at_time::<T>(k)).drop_last());
                assert(d2.filter(at_time::<T>(k)) == r2.filter(at_time::<T>(k)).drop_last());
            } else {
                lemma_filter_last_other(r1, k);
                lemma_filter_last_other(r2, k);
            }
        }
        lemma_sorted_filters_determine(d1, d2);
        assert(r1 =~= d1.push(r1.last()));
        assert(r2 =~= d2.push(r2.last()));
    }
}

/// There is exactly one stable chronological ordering of a sequence.
pub proof fn lemma_stable_order_unique<T: Timed>(v: Seq<T>, r: Seq<T>)
    requires
        stable_time_order(v, r),
    ensures
        time_sorted(v) == r,
{
    let c = time_sorted(v);
    assert(stable_time_order(v, c));
    assert forall|k: u64| #[trigger] c.filter(at_time::<T>(k)) == r.filter(at_time::<T>(k)) by {
        assert(c.filter(at_time::<T>(k)) == v.filter(at_time::<T>(k)));
        assert(r.filter(at_time::<T>(k)) == v.filter(at_time::<T>(k)));
    }
    lemma_sorted_filters_determine(c, r);
}

/// Stable sort by timestamp (insertion sort, consuming `v` from the back).
pub fn sort_by_time<T: Timed>(v: Vec<T>) -> (r: Vec<T>)
    ensures
        stable_time_order(v@, r@),
        r@ == time_sorted(v@),
{
    let ghost orig = v@;
    let mut input = v;
    let mut out: Vec<T> = Vec::new();
    proof {
        assert(orig.skip(orig.len() as int) == Seq::<T>::empty());
        reveal_with_fuel(Seq::<_>::filter, 1);
    }
    while input.len() > 0
        invariant
            input@.len() <= orig.len(),
            input@ == orig.take(input@.len() as int),
            sorted_by_time(out@),
            out@.to_multiset() == orig.skip(input@.len() as int).to_multiset(),
            forall|k: u64| #[trigger] out@.filter(at_time::<T>(k)) == orig.skip(input@.len() as int).filter(
                at_time::<T>(k),
            ),
        decreases input@.len(),
    {
        let ghost n = input@.len() as int;
        let x = input.pop().unwrap();
        let t = x.time_ms();
        let mut j: usize = 0;
        let mut searching = true;
        while searching
            invariant
                j <= out@.len(),
                forall|m: int| 0 <= m < j ==> #[trigger] out@[m].spec_time() < t,
                !searching ==> (j < out@.len() ==> out@[j as int].spec_time() >= t),
            decreases out@.len() - j + (if searching { 1int } else { 0int }),
        {
            if j < out.len() && out[j].time_ms() < t {
                j = j + 1;
            } else {
                searching = false;
            }
        }
        proof {
            assert(orig.skip(n - 1) == seq![x] + orig.skip(n));
            lemma_insert_keeps_order(out@, j as int, x, orig.skip(n));
        }
        out.insert(j, x);
    }
    proof {
        assert(orig.skip(0) == orig);
        lemma_stable_order_unique(orig, out@);
    }
    out
}

} // verus!
