//! Chronological ordering of line events: a stable insertion sort by
//! timestamp, its functional specification, and the laws the engine's
//! callers rely on — the sort keeps the events (as a multiset), leaves
//! them ordered, and, when all timestamps differ, the ascending order is
//! the exact reverse of the descending one.

use vstd::prelude::*;
use vstd::seq_lib::to_multiset_contains;
use vstd::seq_lib::to_multiset_insert;
use vstd::seq_lib::to_multiset_len;

use crate::domain::LineEntry;
use crate::domain::LineEntryView;
use crate::domain::SortOrder;

verus! {

/// The views of a vector of entries.
pub open spec fn entry_views(s: Seq<LineEntry>) -> Seq<LineEntryView> {
    s.map_values(|e: LineEntry| e@)
}

/// `a` may stand before `b` under the given order.
pub open spec fn le_by(order: SortOrder, a: LineEntryView, b: LineEntryView) -> bool {
    match order {
        SortOrder::Asc => a.timestamp <= b.timestamp,
        SortOrder::Desc => b.timestamp <= a.timestamp,
    }
}

/// The events stand in the given order.
pub open spec fn sorted_by(s: Seq<LineEntryView>, order: SortOrder) -> bool {
    forall|i: int, j: int| 0 <= i < j < s.len() ==> le_by(order, s[i], s[j])
}

/// Where a stable insertion puts `x` into `s`: after every element that
/// may stand before it.
pub open spec fn insert_pos(s: Seq<LineEntryView>, x: LineEntryView, order: SortOrder) -> int
    decreases s.len(),
{
    if s.len() == 0 {
        0
    } else if le_by(order, s.last(), x) {
        s.len() as int
    } else {
        insert_pos(s.drop_last(), x, order)
    }
}

/// The stable sort of `s` under the given order: each element in turn is
/// inserted after every element already placed that may stand before it,
/// so elements with equal timestamps keep their relative order.
pub open spec fn sort_events(s: Seq<LineEntryView>, order: SortOrder) -> Seq<LineEntryView>
    decreases s.len(),
{
    if s.len() == 0 {
        Seq::empty()
    } else {
        let sorted = sort_events(s.drop_last(), order);
        sorted.insert(insert_pos(sorted, s.last(), order), s.last())
    }
}

pub proof fn lemma_insert_pos_props(s: Seq<LineEntryView>, x: LineEntryView, order: SortOrder)
    ensures
        0 <= insert_pos(s, x, order) <= s.len(),
        insert_pos(s, x, order) > 0 ==> le_by(order, s[insert_pos(s, x, order) - 1], x),
        forall|k: int| insert_pos(s, x, order) <= k < s.len() ==> !le_by(order, s[k], x),
    decreases s.len(),
{
    if s.len() > 0 && !le_by(order, s.last(), x) {
        lemma_insert_pos_props(s.drop_last(), x, order);
        assert(forall|k: int|
            0 <= k < s.len() - 1 ==> s.drop_last()[k] == s[k]);
    }
}

pub proof fn lemma_insert_pos_unique(
    s: Seq<LineEntryView>,
    x: LineEntryView,
    order: SortOrder,
    p: int,
)
    requires
        0 <= p <= s.len(),
        p > 0 ==> le_by(order, s[p - 1], x),
        forall|k: int| p <= k < s.len() ==> !le_by(order, s[k], x),
    ensures
        insert_pos(s, x, order) == p,
    decreases s.len(),
{
    if s.len() == 0 {
    } else if le_by(order, s.last(), x) {
        assert(p == s.len());
    } else {
        assert(p < s.len());
        assert(forall|k: int|
            0 <= k < s.len() - 1 ==> s.drop_last()[k] == s[k]);
        lemma_insert_pos_unique(s.drop_last(), x, order, p);
    }
}

/// Inserting at the stable position keeps the events ordered.
pub proof fn lemma_insert_keeps_sorted(s: Seq<LineEntryView>, x: LineEntryView, order: SortOrder)
    requires
        sorted_by(s, order),
    ensures
        sorted_by(s.insert(insert_pos(s, x, order), x), order),
{
    lemma_insert_pos_props(s, x, order);
    let p = insert_pos(s, x, order);
    let t = s.insert(p, x);
    s.insert_ensures(p, x);
    assert forall|i: int, j: int| 0 <= i < j < t.len() implies le_by(order, t[i], t[j]) by {
        if i < p && j < p {
            assert(t[i] == s[i] && t[j] == s[j]);
        } else if i < p && j == p {
            assert(t[i] == s[i]);
            assert(t[j] == x);
            assert(le_by(order, s[p - 1], x));
            if i < p - 1 {
                assert(le_by(order, s[i], s[p - 1]));
            }
        } else if i < p && j > p {
            assert(t[i] == s[i] && t[j] == s[j - 1]);
        } else if i == p && j > p {
            assert(t[i] == x);
            assert(t[j] == s[j - 1]);
            assert(!le_by(order, s[j - 1], x));
        } else {
            assert(t[i] == s[i - 1] && t[j] == s[j - 1]);
        }
    }
}

/// The sort leaves the events ordered.
pub proof fn lemma_sort_sorted(s: Seq<LineEntryView>, order: SortOrder)
    ensures
        sorted_by(sort_events(s, order), order),
    decreases s.len(),
{
    if s.len() > 0 {
        lemma_sort_sorted(s.drop_last(), order);
        lemma_insert_keeps_sorted(sort_events(s.drop_last(), order), s.last(), order);
    }
}

/// The sort keeps exactly the given events, as a multiset.
pub proof fn lemma_sort_multiset(s: Seq<LineEntryView>, order: SortOrder)
    ensures
        sort_events(s, order).to_multiset() == s.to_multiset(),
    decreases s.len(),
{
    broadcast use to_multiset_insert;
    broadcast use vstd::seq_lib::to_multiset_build;

    if s.len() == 0 {
        assert(s =~= Seq::<LineEntryView>::empty());
        assert(sort_events(s, order) == s);
    } else {
        let rest = s.drop_last();
        let x = s.last();
        let sorted = sort_events(rest, order);
        let p = insert_pos(sorted, x, order);
        lemma_sort_multiset(rest, order);
        lemma_insert_pos_props(sorted, x, order);
        assert(sort_events(s, order) == sorted.insert(p, x));
        assert(sorted.insert(p, x).to_multiset() == sorted.to_multiset().insert(x));
        assert(s =~= rest.push(x));
        assert(rest.push(x).to_multiset() == rest.to_multiset().insert(x));
    }
}

/// The sort keeps the number of events.
pub proof fn lemma_sort_len(s: Seq<LineEntryView>, order: SortOrder)
    ensures
        sort_events(s, order).len() == s.len(),
    decreases s.len(),
{
    if s.len() > 0 {
        lemma_sort_len(s.drop_last(), order);
        lemma_insert_pos_props(sort_events(s.drop_last(), order), s.last(), order);
    }
}

/// Every sorted event is one of the given events.
pub proof fn lemma_sort_membership(s: Seq<LineEntryView>, order: SortOrder, i: int)
    requires
        0 <= i < sort_events(s, order).len(),
    ensures
        s.contains(sort_events(s, order)[i]),
{
    broadcast use to_multiset_contains;
    broadcast use to_multiset_len;

    lemma_sort_multiset(s, order);
    let t = sort_events(s, order);
    assert(t.contains(t[i]));
    assert(t.to_multiset().count(t[i]) > 0);
}

/// No two events share a timestamp.
pub open spec fn distinct_timestamps(s: Seq<LineEntryView>) -> bool {
    forall|i: int, j: int| 0 <= i < j < s.len() ==> s[i].timestamp != s[j].timestamp
}

proof fn lemma_reverse_insert(t: Seq<LineEntryView>, p: int, x: LineEntryView)
    requires
        0 <= p <= t.len(),
    ensures
        t.insert(p, x).reverse() == t.reverse().insert(t.len() - p, x),
{
    let lhs = t.insert(p, x).reverse();
    let rhs = t.reverse().insert(t.len() - p, x);
    assert forall|i: int| 0 <= i < lhs.len() implies lhs[i] == rhs[i] by {
        let n = t.len() as int;
        assert(lhs[i] == t.insert(p, x)[n - i]);
        if i < n - p {
            assert(rhs[i] == t.reverse()[i]);
        } else if i == n - p {
        } else {
            assert(rhs[i] == t.reverse()[i - 1]);
        }
    }
    assert(lhs =~= rhs);
}

/// Order symmetry: when all timestamps differ, sorting ascending gives the
/// exact reverse of sorting descending, so the first ascending event is
/// the last descending one.
pub proof fn lemma_order_symmetry(s: Seq<LineEntryView>)
    requires
        distinct_timestamps(s),
    ensures
        sort_events(s, SortOrder::Asc) == sort_events(s, SortOrder::Desc).reverse(),
        s.len() >= 1 ==> sort_events(s, SortOrder::Asc)[0] == sort_events(s, SortOrder::Desc)[s.len()
            - 1],
    decreases s.len(),
{
    broadcast use to_multiset_contains;
    broadcast use to_multiset_len;

    if s.len() == 0 {
        assert(sort_events(s, SortOrder::Asc) =~= sort_events(s, SortOrder::Desc).reverse());
    } else {
        let x = s.last();
        let rest = s.drop_last();
        assert(forall|k: int| 0 <= k < rest.len() ==> rest[k] == s[k]);
        assert(distinct_timestamps(rest));
        lemma_order_symmetry(rest);
        let a = sort_events(rest, SortOrder::Asc);
        let d = sort_events(rest, SortOrder::Desc);
        let n = rest.len() as int;
        lemma_sort_sorted(rest, SortOrder::Desc);
        lemma_sort_multiset(rest, SortOrder::Desc);
        lemma_sort_len(rest, SortOrder::Desc);
        lemma_sort_len(rest, SortOrder::Asc);
        // No event of the already sorted rest shares x's timestamp.
        assert forall|k: int| 0 <= k < n implies d[k].timestamp != x.timestamp by {
            assert(d.contains(d[k]));
            assert(d.to_multiset().count(d[k]) > 0);
            assert(rest.contains(d[k]));
            let j = choose|j: int| 0 <= j < rest.len() && rest[j] == d[k];
            assert(s[j] == rest[j]);
            assert(s[j].timestamp != s[s.len() - 1].timestamp);
        }
        let pd = insert_pos(d, x, SortOrder::Desc);
        lemma_insert_pos_props(d, x, SortOrder::Desc);
        let pa = n - pd;
        assert forall|k: int| pa <= k < n implies !le_by(SortOrder::Asc, a[k], x) by {
            assert(a[k] == d.reverse()[k]);
            assert(a[k] == d[n - 1 - k]);
            let j = n - 1 - k;
            assert(0 <= j < pd);
            assert(le_by(SortOrder::Desc, d[pd - 1], x));
            assert(d[pd - 1].timestamp >= x.timestamp);
            assert(d[pd - 1].timestamp != x.timestamp);
            if j < pd - 1 {
                assert(le_by(SortOrder::Desc, d[j], d[pd - 1]));
            }
            assert(d[j].timestamp > x.timestamp);
        }
        if pa > 0 {
            assert(a[pa - 1] == d.reverse()[pa - 1]);
            assert(a[pa - 1] == d[pd]);
            assert(!le_by(SortOrder::Desc, d[pd], x));
            assert(le_by(SortOrder::Asc, a[pa - 1], x));
        }
        lemma_insert_pos_unique(a, x, SortOrder::Asc, pa);
        lemma_reverse_insert(d, pd, x);
        assert(sort_events(s, SortOrder::Asc) == a.insert(pa, x));
        assert(sort_events(s, SortOrder::Desc).reverse() == d.reverse().insert(n - pd, x));
        let t = sort_events(s, SortOrder::Asc);
        lemma_sort_len(s, SortOrder::Asc);
        lemma_sort_len(s, SortOrder::Desc);
        assert(t[0] == sort_events(s, SortOrder::Desc).reverse()[0]);
    }
}

/// Stability at the ties: events that all carry one timestamp come out in
/// exactly the order they arrived in, under either sort order.
pub proof fn lemma_sort_keeps_tied_order(s: Seq<LineEntryView>, order: SortOrder)
    requires
        forall|i: int, j: int|
            0 <= i < s.len() && 0 <= j < s.len() ==> s[i].timestamp == s[j].timestamp,
    ensures
        sort_events(s, order) == s,
    decreases s.len(),
{
    if s.len() == 0 {
        assert(sort_events(s, order) =~= s);
    } else {
        let rest = s.drop_last();
        let x = s.last();
        assert(forall|k: int| 0 <= k < rest.len() ==> rest[k] == s[k]);
        lemma_sort_keeps_tied_order(rest, order);
        let sorted = sort_events(rest, order);
        if sorted.len() > 0 {
            assert(le_by(order, sorted.last(), x));
        }
        assert(insert_pos(sorted, x, order) == sorted.len());
        assert(sorted.insert(sorted.len() as int, x) =~= sorted.push(x));
        assert(rest.push(x) =~= s);
    }
}

fn le_exec(order: SortOrder, a: &LineEntry, b: &LineEntry) -> (r: bool)
    ensures
        r == le_by(order, a@, b@),
{
    match order {
        SortOrder::Asc => a.timestamp <= b.timestamp,
        SortOrder::Desc => b.timestamp <= a.timestamp,
    }
}

fn find_pos(out: &Vec<LineEntry>, e: &LineEntry, order: SortOrder) -> (pos: usize)
    ensures
        pos == insert_pos(entry_views(out@), e@, order),
{
    let ghost ov = entry_views(out@);
    let mut pos: usize = out.len();
    while pos > 0
        invariant
            pos <= out@.len(),
            ov == entry_views(out@),
            forall|k: int| pos <= k < ov.len() ==> !le_by(order, ov[k], e@),
        decreases pos,
    {
        if le_exec(order, &out[pos - 1], e) {
            proof {
                lemma_insert_pos_unique(ov, e@, order, pos as int);
            }
            return pos;
        }
        pos -= 1;
    }
    proof {
        lemma_insert_pos_unique(ov, e@, order, 0);
    }
    0
}

proof fn lemma_entry_views_insert(s: Seq<LineEntry>, p: int, e: LineEntry)
    requires
        0 <= p <= s.len(),
    ensures
        entry_views(s.insert(p, e)) == entry_views(s).insert(p, e@),
{
    assert(entry_views(s.insert(p, e)) =~= entry_views(s).insert(p, e@));
}

/// Sorts the events by timestamp under the given order with a stable
/// insertion sort: events with equal timestamps keep the relative order
/// they arrived in.
pub fn sort_entries(entries: Vec<LineEntry>, order: SortOrder) -> (r: Vec<LineEntry>)
    ensures
        entry_views(r@) == sort_events(entry_views(entries@), order),
{
    let ghost orig = entry_views(entries@);
    let mut rest = entries;
    let mut out: Vec<LineEntry> = Vec::new();
    proof {
        assert(entry_views(out@) =~= sort_events(orig.take(0), order));
    }
    while rest.len() > 0
        invariant
            rest@.len() <= orig.len(),
            entry_views(rest@) == orig.skip(orig.len() - rest@.len()),
            entry_views(out@) == sort_events(orig.take(orig.len() - rest@.len()), order),
        decreases rest@.len(),
    {
        let ghost k = orig.len() - rest@.len();
        let ghost prev = rest@;
        let e = rest.remove(0);
        proof {
            assert(e@ == entry_views(prev)[0]);
            assert(entry_views(prev) == orig.skip(k as int));
            assert(e@ == orig[k as int]);
            prev.remove_ensures(0);
            assert forall|i: int| 0 <= i < rest@.len() implies entry_views(rest@)[i] == orig.skip(
                k + 1,
            )[i] by {
                assert(rest@[i] == prev[i + 1]);
                assert(entry_views(prev)[i + 1] == prev[i + 1]@);
            }
            assert(entry_views(rest@) =~= orig.skip(k + 1));
        }
        let pos = find_pos(&out, &e, order);
        proof {
            lemma_insert_pos_props(entry_views(out@), e@, order);
        }
        let ghost before_raw = out@;
        let ghost before = entry_views(out@);
        out.insert(pos, e);
        proof {
            lemma_entry_views_insert(before_raw, pos as int, e);
            assert(entry_views(out@) == before.insert(pos as int, e@));
            assert(orig.take(k + 1).drop_last() =~= orig.take(k as int));
            assert(orig.take(k + 1).last() == orig[k as int]);
        }
    }
    proof {
        assert(orig.take(orig.len() as int) =~= orig);
    }
    out
}

} // verus!
