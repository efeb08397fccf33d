//! Filtering, ordering and truncating the units of a report.
use vstd::prelude::*;
use crate::config::{Config, ConfigView, Order};
use crate::parser::{Timing, TimingView, timings_view};
use crate::text::{chars_of, contains, contains_chars};

verus! {

broadcast use vstd::seq_lib::group_seq_properties;

/// Whether `a` may be listed before `b` in order `o`.
pub open spec fn in_order(a: TimingView, b: TimingView, o: Order) -> bool {
    match o {
        Order::Ascending => a.total <= b.total,
        Order::Descending => a.total >= b.total,
    }
}

/// `s` with `x` put before the first unit that `x` may be listed before.
pub open spec fn insert_ordered(s: Seq<TimingView>, x: TimingView, o: Order) -> Seq<TimingView>
    decreases s.len(),
{
    if s.len() == 0 {
        seq![x]
    } else if in_order(x, s[0], o) {
        seq![x] + s
    } else {
        seq![s[0]] + insert_ordered(s.drop_first(), x, o)
    }
}

/// `s` ordered by total time in order `o`, units of equal total time keeping
/// their relative order (a stable sort, as std's `sort_by_key`).
pub open spec fn sorted_by_total(s: Seq<TimingView>, o: Order) -> Seq<TimingView>
    decreases s.len(),
{
    if s.len() == 0 {
        s
    } else {
        insert_ordered(sorted_by_total(s.drop_first(), o), s[0], o)
    }
}

/// Whether every unit of `s` may be listed before every later one.
pub open spec fn is_ordered(s: Seq<TimingView>, o: Order) -> bool {
    forall|i: int, j: int| 0 <= i < j < s.len() ==> in_order(#[trigger] s[i], #[trigger] s[j], o)
}

/// The units of `s` whose total time is `k`, in their order in `s`.
pub open spec fn with_total(s: Seq<TimingView>, k: u128) -> Seq<TimingView> {
    s.filter(|t: TimingView| t.total == k)
}

proof fn lemma_insert_position(s: Seq<TimingView>, x: TimingView, o: Order, p: int)
    requires
        0 <= p <= s.len(),
        forall|j: int| 0 <= j < p ==> !in_order(x, #[trigger] s[j], o),
        p < s.len() ==> in_order(x, s[p], o),
    ensures
        insert_ordered(s, x, o) == s.insert(p, x),
    decreases s.len(),
{
    if s.len() == 0 {
        assert(s.insert(p, x) =~= seq![x]);
    } else if p == 0 {
        assert(s.insert(p, x) =~= seq![x] + s);
    } else {
        let t = s.drop_first();
        assert forall|j: int| 0 <= j < p - 1 implies !in_order(x, #[trigger] t[j], o) by {
            assert(t[j] == s[j + 1]);
        }
        lemma_insert_position(t, x, o, p - 1);
        assert(s.insert(p, x) =~= seq![s[0]] + t.insert(p - 1, x));
    }
}

proof fn lemma_insert_multiset(s: Seq<TimingView>, x: TimingView, o: Order)
    ensures
        insert_ordered(s, x, o).to_multiset() =~= s.to_multiset().insert(x),
        insert_ordered(s, x, o).len() == s.len() + 1,
    decreases s.len(),
{
    broadcast use vstd::seq_lib::group_to_multiset_ensures;
    broadcast use vstd::multiset::group_multiset_axioms;

    let r = insert_ordered(s, x, o);
    if s.len() == 0 {
        assert(r =~= s.insert(0, x));
    } else if in_order(x, s[0], o) {
        assert(r =~= s.insert(0, x));
    } else {
        let t = s.drop_first();
        let u = insert_ordered(t, x, o);
        lemma_insert_multiset(t, x, o);
        assert(r =~= u.insert(0, s[0]));
        assert(s =~= t.insert(0, s[0]));
        assert(t.to_multiset().insert(x).insert(s[0]) =~= t.to_multiset().insert(s[0]).insert(x));
    }
}

proof fn lemma_insert_members(s: Seq<TimingView>, x: TimingView, o: Order)
    ensures
        forall|i: int|
            0 <= i < insert_ordered(s, x, o).len() ==> #[trigger] insert_ordered(s, x, o)[i] == x
                || s.contains(insert_ordered(s, x, o)[i]),
    decreases s.len(),
{
    let r = insert_ordered(s, x, o);
    lemma_insert_multiset(s, x, o);
    if s.len() > 0 && !in_order(x, s[0], o) {
        let t = s.drop_first();
        lemma_insert_members(t, x, o);
        assert forall|i: int| 0 <= i < r.len() implies #[trigger] r[i] == x || s.contains(r[i]) by {
            if i == 0 {
                assert(s[0] == r[0]);
            } else {
                assert(r[i] == insert_ordered(t, x, o)[i - 1]);
                if r[i] != x {
                    let k = choose|k: int| 0 <= k < t.len() && t[k] == r[i];
                    assert(s[k + 1] == r[i]);
                }
            }
        }
    } else if s.len() > 0 {
        assert forall|i: int| 0 <= i < r.len() implies #[trigger] r[i] == x || s.contains(r[i]) by {
            if i > 0 {
                assert(s[i - 1] == r[i]);
            }
        }
    }
}

proof fn lemma_insert_keeps_order(s: Seq<TimingView>, x: TimingView, o: Order)
    requires
        is_ordered(s, o),
    ensures
        is_ordered(insert_ordered(s, x, o), o),
    decreases s.len(),
{
    let r = insert_ordered(s, x, o);
    if s.len() == 0 {
    } else if in_order(x, s[0], o) {
        assert forall|i: int, j: int| 0 <= i < j < r.len() implies in_order(
            #[trigger] r[i],
            #[trigger] r[j],
            o,
        ) by {
            if i > 0 {
                assert(r[i] == s[i - 1] && r[j] == s[j - 1]);
            } else {
                assert(r[j] == s[j - 1]);
                if j - 1 > 0 {
                    assert(in_order(s[0], s[j - 1], o));
                }
            }
        }
    } else {
        let t = s.drop_first();
        assert(is_ordered(t, o)) by {
            assert forall|i: int, j: int| 0 <= i < j < t.len() implies in_order(
                #[trigger] t[i],
                #[trigger] t[j],
                o,
            ) by {
                assert(t[i] == s[i + 1] && t[j] == s[j + 1]);
            }
        }
        lemma_insert_keeps_order(t, x, o);
        lemma_insert_members(t, x, o);
        let u = insert_ordered(t, x, o);
        assert forall|i: int, j: int| 0 <= i < j < r.len() implies in_order(
            #[trigger] r[i],
            #[trigger] r[j],
            o,
        ) by {
            if i > 0 {
                assert(r[i] == u[i - 1] && r[j] == u[j - 1]);
            } else {
                assert(r[j] == u[j - 1]);
                if u[j - 1] != x {
                    let k = choose|k: int| 0 <= k < t.len() && t[k] == u[j - 1];
                    assert(s[k + 1] == u[j - 1]);
                    assert(in_order(s[0], s[k + 1], o));
                }
            }
        }
    }
}

proof fn lemma_insert_with_total(s: Seq<TimingView>, x: TimingView, o: Order, k: u128)
    ensures
        with_total(insert_ordered(s, x, o), k) == if x.total == k {
            seq![x] + with_total(s, k)
        } else {
            with_total(s, k)
        },
    decreases s.len(),
{
    let pk = |t: TimingView| t.total == k;
    reveal_with_fuel(Seq::filter, 2);
    if s.len() == 0 {
        assert(seq![x].drop_last() =~= Seq::<TimingView>::empty());
        assert(with_total(seq![x], k) =~= if x.total == k {
            seq![x]
        } else {
            Seq::<TimingView>::empty()
        });
    } else if in_order(x, s[0], o) {
        Seq::filter_distributes_over_add(seq![x], s, pk);
        assert(seq![x].drop_last() =~= Seq::<TimingView>::empty());
    } else {
        let t = s.drop_first();
        lemma_insert_with_total(t, x, o, k);
        assert(s =~= seq![s[0]] + t);
        Seq::filter_distributes_over_add(seq![s[0]], t, pk);
        Seq::filter_distributes_over_add(
            seq![s[0]],
            insert_ordered(t, x, o),
            pk,
        );
        assert(seq![s[0]].drop_last() =~= Seq::<TimingView>::empty());
        if x.total == k {
            Seq::filter_distributes_over_add(seq![x], t, pk);
            assert(seq![x].drop_last() =~= Seq::<TimingView>::empty());
            assert(s[0].total != k);
        }
    }
}

/// Ordering lists every unit in order.
pub proof fn lemma_sorted_is_ordered(s: Seq<TimingView>, o: Order)
    ensures
        is_ordered(sorted_by_total(s, o), o),
    decreases s.len(),
{
    if s.len() > 0 {
        lemma_sorted_is_ordered(s.drop_first(), o);
        lemma_insert_keeps_order(sorted_by_total(s.drop_first(), o), s[0], o);
    }
}

/// Ordering neither adds nor loses a unit: the result is a permutation.
pub proof fn lemma_sorted_is_permutation(s: Seq<TimingView>, o: Order)
    ensures
        sorted_by_total(s, o).to_multiset() =~= s.to_multiset(),
        sorted_by_total(s, o).len() == s.len(),
    decreases s.len(),
{
    broadcast use vstd::seq_lib::group_to_multiset_ensures;

    if s.len() > 0 {
        let t = s.drop_first();
        lemma_sorted_is_permutation(t, o);
        lemma_insert_multiset(sorted_by_total(t, o), s[0], o);
        assert(s.remove(0) =~= t);
    }
}

/// Ordering is stable: units of equal total time keep their relative order.
pub proof fn lemma_sorted_is_stable(s: Seq<TimingView>, o: Order, k: u128)
    ensures
        with_total(sorted_by_total(s, o), k) == with_total(s, k),
    decreases s.len(),
{
    let pk = |t: TimingView| t.total == k;
    reveal_with_fuel(Seq::filter, 2);
    if s.len() > 0 {
        let t = s.drop_first();
        lemma_sorted_is_stable(t, o, k);
        lemma_insert_with_total(sorted_by_total(t, o), s[0], o, k);
        assert(s =~= seq![s[0]] + t);
        Seq::filter_distributes_over_add(seq![s[0]], t, pk);
        assert(seq![s[0]].drop_last() =~= Seq::<TimingView>::empty());
    }
}

/// What a filter keeps satisfies the predicate and comes from the sequence.
pub proof fn lemma_filter_members(s: Seq<TimingView>, p: spec_fn(TimingView) -> bool)
    ensures
        forall|i: int| 0 <= i < s.filter(p).len() ==> p(#[trigger] s.filter(p)[i]) && s.contains(s.filter(p)[i]),
    decreases s.len(),
{
    reveal(Seq::filter);
    if s.len() > 0 {
        let t = s.drop_last();
        lemma_filter_members(t, p);
        let f = t.filter(p);
        assert forall|i: int| 0 <= i < f.len() implies s.contains(#[trigger] f[i]) by {
            let k = choose|k: int| 0 <= k < t.len() && t[k] == f[i];
            assert(s[k] == f[i]);
        }
        if p(s.last()) {
            let g = f.push(s.last());
            assert forall|i: int| 0 <= i < g.len() implies p(#[trigger] g[i]) && s.contains(g[i]) by {
                if i == g.len() - 1 {
                    assert(s[s.len() - 1] == g[i]);
                } else {
                    assert(g[i] == f[i]);
                }
            }
        }
    }
}

/// Filtering an ordered sequence leaves it ordered.
pub proof fn lemma_filter_keeps_order(s: Seq<TimingView>, o: Order, p: spec_fn(TimingView) -> bool)
    requires
        is_ordered(s, o),
    ensures
        is_ordered(s.filter(p), o),
        forall|i: int| 0 <= i < s.filter(p).len() ==> p(#[trigger] s.filter(p)[i]) && s.contains(s.filter(p)[i]),
    decreases s.len(),
{
    lemma_filter_members(s, p);
    reveal(Seq::filter);
    if s.len() > 0 {
        let t = s.drop_last();
        assert(is_ordered(t, o)) by {
            assert forall|i: int, j: int| 0 <= i < j < t.len() implies in_order(
                #[trigger] t[i],
                #[trigger] t[j],
                o,
            ) by {
                assert(t[i] == s[i] && t[j] == s[j]);
            }
        }
        lemma_filter_keeps_order(t, o, p);
        let f = t.filter(p);
        assert forall|i: int| 0 <= i < f.len() implies s.contains(#[trigger] f[i]) by {
            let k = choose|k: int| 0 <= k < t.len() && t[k] == f[i];
            assert(s[k] == f[i]);
        }
        if p(s.last()) {
            let g = f.push(s.last());
            assert forall|i: int, j: int| 0 <= i < j < g.len() implies in_order(
                #[trigger] g[i],
                #[trigger] g[j],
                o,
            ) by {
                if j == g.len() - 1 {
                    let k = choose|k: int| 0 <= k < t.len() && t[k] == g[i];
                    assert(s[k] == g[i]);
                    assert(in_order(s[k], s[s.len() - 1], o));
                } else {
                    assert(g[i] == f[i] && g[j] == f[j]);
                }
            }
            assert forall|i: int| 0 <= i < g.len() implies p(#[trigger] g[i]) && s.contains(g[i]) by {
                if i == g.len() - 1 {
                    assert(s[s.len() - 1] == g[i]);
                } else {
                    assert(g[i] == f[i]);
                }
            }
        }
    }
}

/// Every unit that `sort_timings` leaves took at least the minimum time and has
/// the search text in its name; there are at most `top` of them; they are listed
/// in the order asked for; and each is one of the units it was given.
pub proof fn lemma_selected_timings(s: Seq<TimingView>, c: ConfigView)
    ensures
        forall|i: int| 0 <= i < selected_timings(s, c).len() ==> kept(#[trigger] selected_timings(s, c)[i], c),
        forall|i: int| 0 <= i < selected_timings(s, c).len() ==> s.contains(#[trigger] selected_timings(s, c)[i]),
        c.top matches Some(n) ==> selected_timings(s, c).len() <= n,
        is_ordered(selected_timings(s, c), c.order),
{
    broadcast use vstd::seq_lib::group_to_multiset_ensures;

    let p = |t: TimingView| kept(t, c);
    let f = s.filter(p);
    lemma_filter_members(s, p);
    let o = sorted_by_total(f, c.order);
    lemma_sorted_is_ordered(f, c.order);
    lemma_sorted_is_permutation(f, c.order);
    assert forall|i: int| 0 <= i < o.len() implies kept(#[trigger] o[i], c) && s.contains(o[i]) by {
        assert(o.to_multiset().count(o[i]) > 0);
        assert(f.contains(o[i]));
        let k = choose|k: int| 0 <= k < f.len() && f[k] == o[i];
        assert(kept(f[k], c) && s.contains(f[k]));
    }
    let r = first_at_most(o, c.top);
    assert forall|i: int| 0 <= i < r.len() implies kept(#[trigger] r[i], c) && s.contains(r[i]) by {
        assert(r[i] == o[i]);
    }
    assert forall|i: int, j: int| 0 <= i < j < r.len() implies in_order(
        #[trigger] r[i],
        #[trigger] r[j],
        c.order,
    ) by {
        assert(r[i] == o[i] && r[j] == o[j]);
    }
}

proof fn lemma_filter_all(s: Seq<TimingView>, p: spec_fn(TimingView) -> bool)
    requires
        forall|i: int| 0 <= i < s.len() ==> p(#[trigger] s[i]),
    ensures
        s.filter(p) == s,
    decreases s.len(),
{
    reveal(Seq::filter);
    if s.len() > 0 {
        let t = s.drop_last();
        assert forall|i: int| 0 <= i < t.len() implies p(#[trigger] t[i]) by {
            assert(t[i] == s[i]);
        }
        lemma_filter_all(t, p);
        assert(p(s[s.len() - 1]));
        assert(t.push(s.last()) =~= s);
    } else {
        assert(s.filter(p) =~= s);
    }
}

proof fn lemma_sorted_of_ordered(s: Seq<TimingView>, o: Order)
    requires
        is_ordered(s, o),
    ensures
        sorted_by_total(s, o) == s,
    decreases s.len(),
{
    if s.len() > 0 {
        let t = s.drop_first();
        assert(is_ordered(t, o)) by {
            assert forall|i: int, j: int| 0 <= i < j < t.len() implies in_order(
                #[trigger] t[i],
                #[trigger] t[j],
                o,
            ) by {
                assert(t[i] == s[i + 1] && t[j] == s[j + 1]);
            }
        }
        lemma_sorted_of_ordered(t, o);
        if t.len() > 0 {
            assert(t[0] == s[1]);
            assert(in_order(s[0], s[1], o));
        }
        assert(seq![s[0]] + t =~= s);
    }
}

/// Listing the units again under the same options changes nothing: what
/// `sort_timings` leaves, it leaves as it is.
pub proof fn lemma_selected_timings_idempotent(s: Seq<TimingView>, c: ConfigView)
    ensures
        selected_timings(selected_timings(s, c), c) == selected_timings(s, c),
{
    let r = selected_timings(s, c);
    lemma_selected_timings(s, c);
    let p = |t: TimingView| kept(t, c);
    lemma_filter_all(r, p);
    lemma_sorted_of_ordered(r, c.order);
}

/// The name filter is containment at any position: a unit passes exactly when it
/// took at least `min_time` and `search` occurs somewhere in its name (std's
/// `str::contains`), not only at its start.
pub proof fn lemma_passes_is_containment(t: TimingView, min_time: u128, search: Seq<char>)
    ensures
        passes(t, min_time, search) <==> (t.total >= min_time && exists|i: int|
            0 <= i && i + search.len() <= t.unit.len() && #[trigger] t.unit.subrange(i, i + search.len())
                == search),
{
    if t.total >= min_time && exists|i: int|
        0 <= i && i + search.len() <= t.unit.len() && #[trigger] t.unit.subrange(i, i + search.len())
            == search {
        let i = choose|i: int|
            0 <= i && i + search.len() <= t.unit.len() && #[trigger] t.unit.subrange(i, i + search.len())
                == search;
        assert(crate::text::occurs_at(t.unit, search, i));
    }
}

/// A prefix of an ordered sequence that leaves out one of its items is as long as
/// the limit, and every item it holds may be listed before the one left out.
pub proof fn lemma_prefix_leaves_out_later(f: Seq<TimingView>, top: Option<usize>, o: Order, t: TimingView)
    requires
        is_ordered(f, o),
        f.contains(t),
        !first_at_most(f, top).contains(t),
    ensures
        top matches Some(n) && first_at_most(f, top).len() == n,
        forall|j: int| 0 <= j < first_at_most(f, top).len() ==> in_order(#[trigger] first_at_most(f, top)[j], t, o),
{
    let k = choose|k: int| 0 <= k < f.len() && f[k] == t;
    let l = first_at_most(f, top);
    match top {
        None => {
            assert(l.contains(f[k]));
        },
        Some(n) => {
            if n >= f.len() {
                assert(l.contains(f[k]));
            } else {
                if k < n {
                    assert(l[k] == f[k]);
                    assert(l.contains(t));
                }
                assert forall|j: int| 0 <= j < l.len() implies in_order(#[trigger] l[j], t, o) by {
                    assert(l[j] == f[j]);
                }
            }
        },
    }
}

/// `sort_timings` leaves out no unit it should keep, except for the limit: a unit
/// that took at least the minimum time and has the search text in its name, but
/// is not in the result, is left out only because `top` units are already listed,
/// each of which may come before it in the order asked for.
pub proof fn lemma_selected_timings_complete(s: Seq<TimingView>, c: ConfigView, t: TimingView)
    requires
        s.contains(t),
        kept(t, c),
        !selected_timings(s, c).contains(t),
    ensures
        c.top matches Some(n) && selected_timings(s, c).len() == n,
        forall|j: int|
            0 <= j < selected_timings(s, c).len() ==> in_order(#[trigger] selected_timings(s, c)[j], t, c.order),
{
    broadcast use vstd::seq_lib::group_to_multiset_ensures;

    let p = |x: TimingView| kept(x, c);
    let f = s.filter(p);
    s.filter_lemma(p);
    let k = choose|k: int| 0 <= k < s.len() && s[k] == t;
    assert(f.contains(s[k]));
    let o = sorted_by_total(f, c.order);
    lemma_sorted_is_ordered(f, c.order);
    lemma_sorted_is_permutation(f, c.order);
    assert(f.to_multiset().count(t) > 0);
    assert(o.contains(t));
    lemma_prefix_leaves_out_later(o, c.top, c.order, t);
}

fn may_precede(a: &Timing, b: &Timing, o: Order) -> (r: bool)
    ensures
        r == in_order(a@, b@, o),
{
    match o {
        Order::Ascending => a.total <= b.total,
        Order::Descending => a.total >= b.total,
    }
}

/// Orders `v` by total time in order `o`, stably.
pub fn sort_by_total(v: &mut Vec<Timing>, o: Order)
    ensures
        timings_view(final(v)@) == sorted_by_total(timings_view(old(v)@), o),
{
    let ghost s = timings_view(v@);
    let n = v.len();
    let mut r: Vec<Timing> = Vec::new();
    assert(s.subrange(n as int, n as int) =~= Seq::<TimingView>::empty());
    assert(timings_view(r@) =~= Seq::<TimingView>::empty());
    while v.len() > 0
        invariant
            n == s.len(),
            v@.len() <= n,
            timings_view(v@) == s.subrange(0, v@.len() as int),
            timings_view(r@) == sorted_by_total(s.subrange(v@.len() as int, n as int), o),
        decreases v@.len(),
    {
        let m = v.len();
        let ghost rest = v@;
        let x = v.pop().unwrap();
        assert(v@ =~= rest.drop_last());
        assert(timings_view(v@) =~= s.subrange(0, v@.len() as int));
        assert(timings_view(rest)[m - 1] == rest[m - 1]@);
        assert(s.subrange(0, m as int)[m - 1] == s[m - 1]);
        assert(x@ == s[m - 1]);
        let ghost tail = s.subrange(m - 1, n as int);
        assert(tail.drop_first() =~= s.subrange(m as int, n as int));
        assert(tail[0] == x@);
        let ghost rv = timings_view(r@);
        let mut p: usize = 0;
        while p < r.len() && !may_precede(&x, &r[p], o)
            invariant
                p <= r@.len(),
                rv == timings_view(r@),
                forall|j: int| 0 <= j < p ==> !in_order(x@, #[trigger] rv[j], o),
            decreases r@.len() - p,
        {
            p = p + 1;
        }
        proof {
            lemma_insert_position(rv, x@, o, p as int);
        }
        let ghost before = r@;
        let ghost xv = x@;
        r.insert(p, x);
        assert(timings_view(r@) =~= rv.insert(p as int, xv));
    }
    assert(s.subrange(0, n as int) =~= s);
    *v = r;
}

/// Whether a unit took at least `min_time` nanoseconds and its name contains `search`.
pub open spec fn passes(t: TimingView, min_time: u128, search: Seq<char>) -> bool {
    t.total >= min_time && contains(t.unit, search)
}

/// Whether a unit is kept by the time and name filters of the options.
pub open spec fn kept(t: TimingView, c: ConfigView) -> bool {
    passes(t, c.min_time, c.search)
}

/// At most `top` units from the front of `s`, where a limit is given.
pub open spec fn first_at_most(s: Seq<TimingView>, top: Option<usize>) -> Seq<TimingView> {
    match top {
        Some(n) => if n < s.len() {
            s.take(n as int)
        } else {
            s
        },
        None => s,
    }
}

/// What `sort_timings` leaves of `s` under the options `c`: the units that pass
/// the filters, ordered, then at most `top` of them from the front of that order.
pub open spec fn selected_timings(s: Seq<TimingView>, c: ConfigView) -> Seq<TimingView> {
    first_at_most(sorted_by_total(s.filter(|t: TimingView| kept(t, c)), c.order), c.top)
}

/// Keeps the units of `v` that took at least `min_time` nanoseconds and whose
/// name contains `search`, in their order.
pub fn retain_passing(v: &mut Vec<Timing>, min_time: u128, search: &String)
    ensures
        timings_view(final(v)@) == timings_view(old(v)@).filter(
            |t: TimingView| passes(t, min_time, search@),
        ),
{
    let ghost s = timings_view(v@);
    let n = v.len();
    let search_chars = chars_of(search.as_str());
    let mut rev: Vec<Timing> = Vec::new();
    while v.len() > 0
        invariant
            n == s.len(),
            v@.len() + rev@.len() == n,
            timings_view(v@) == s.subrange(0, v@.len() as int),
            forall|j: int| 0 <= j < rev@.len() ==> (#[trigger] rev@[j])@ == s[n - 1 - j],
        decreases v@.len(),
    {
        let ghost before = v@;
        let m = v.len();
        let x = v.pop().unwrap();
        assert(v@ =~= before.drop_last());
        assert(timings_view(v@) =~= s.subrange(0, v@.len() as int));
        assert(timings_view(before)[m - 1] == before[m - 1]@);
        assert(s.subrange(0, m as int)[m - 1] == s[m - 1]);
        let ghost rev_before = rev@;
        rev.push(x);
        assert(forall|j: int| 0 <= j < rev_before.len() ==> rev@[j] == rev_before[j]);
    }
    let mut r: Vec<Timing> = Vec::new();
    let mut i: usize = 0;
    assert(s.take(0) =~= Seq::<TimingView>::empty());
    while rev.len() > 0
        invariant
            n == s.len(),
            i + rev@.len() == n,
            search_chars@ == search@,
            forall|j: int| 0 <= j < rev@.len() ==> (#[trigger] rev@[j])@ == s[n - 1 - j],
            timings_view(r@) == s.take(i as int).filter(
                |t: TimingView| passes(t, min_time, search@),
            ),
        decreases rev@.len(),
    {
        let ghost before = rev@;
        let x = rev.pop().unwrap();
        assert(x@ == s[i as int]);
        assert(forall|j: int| 0 <= j < rev@.len() ==> rev@[j] == before[j]);
        let unit = chars_of(x.unit.as_str());
        let keep = x.total >= min_time && contains_chars(unit.as_slice(), search_chars.as_slice());
        assert(s.take(i + 1).drop_last() =~= s.take(i as int));
        assert(s.take(i + 1).last() == x@);
        assert(keep == passes(x@, min_time, search@));
        let ghost pred = |t: TimingView| passes(t, min_time, search@);
        assert(s.take(i + 1).filter(pred) == (if pred(x@) {
            s.take(i as int).filter(pred).push(x@)
        } else {
            s.take(i as int).filter(pred)
        })) by {
            reveal(Seq::filter);
        }
        let ghost rv = timings_view(r@);
        if keep {
            let ghost xv = x@;
            r.push(x);
            assert(timings_view(r@) =~= rv.push(xv));
        }
        i = i + 1;
    }
    assert(s.take(n as int) =~= s);
    *v = r;
}

/// Filters, orders and truncates the units as the options ask: units shorter than
/// the minimum time or whose name does not contain the search text are dropped,
/// the rest are ordered by total time, and at most `top` of them are kept from
/// the front of that order.
pub fn sort_timings(timings: &mut Vec<Timing>, config: &Config)
    ensures
        timings_view(final(timings)@) == selected_timings(timings_view(old(timings)@), config@),
{
    retain_passing(timings, config.min_time, &config.search);
    assert((|t: TimingView| passes(t, config.min_time, config.search@)) =~= (|t: TimingView|
        kept(t, config@)));
    sort_by_total(timings, config.order);
    let ghost f = timings_view(timings@);
    if let Some(n) = config.top {
        timings.truncate(n);
        assert(timings_view(timings@) =~= first_at_most(f, config.top));
    }
    assert(timings_view(timings@) =~= first_at_most(f, config.top));
}

} // verus!
