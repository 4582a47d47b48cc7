//! The laws of the engine, proved once and for all over its
//! specification: counting, determinism, order symmetry, and the two
//! filters.

use vstd::prelude::*;

use crate::dates::date_gate;
use crate::dates::opt_view;
use crate::dates::until_gate;
use crate::domain::LineEntryView;
use crate::domain::LineHistory;
use crate::domain::SortOrder;
use crate::engine::collected;
use crate::engine::commit_views;
use crate::engine::extract_history;
use crate::engine::has_date_error;
use crate::engine::str_views;
use crate::engine::CommitRecord;
use crate::errors::HistoryError;
use crate::engine::collected_prefix;
use crate::engine::events_of;
use crate::engine::first_occurrence;
use crate::engine::is_relevant;
use crate::engine::is_taken;
use crate::engine::matches_ignore;
use crate::engine::query_events;
use crate::engine::within_bounds;
use crate::engine::CommitRecordView;
use crate::sorting::distinct_timestamps;
use crate::sorting::lemma_order_symmetry;
use crate::sorting::lemma_sort_len;
use crate::sorting::lemma_sort_membership;
use crate::sorting::sort_events;

verus! {

/// The number of distinct relevant commits among the first `n` of the
/// stream: commits whose tree holds the file and which created it or
/// changed it against some parent, counted once per identifier.
pub open spec fn relevant_distinct_count(cs: Seq<CommitRecordView>, n: int) -> int
    decreases n,
{
    if n <= 0 {
        0
    } else {
        relevant_distinct_count(cs, n - 1) + if first_occurrence(cs, n - 1) && is_relevant(
            cs[n - 1],
        ) {
            1int
        } else {
            0int
        }
    }
}

proof fn lemma_collected_unfiltered_len(cs: Seq<CommitRecordView>, n: int)
    requires
        0 <= n <= cs.len(),
    ensures
        collected_prefix(cs, Seq::empty(), None, None, n).len() == relevant_distinct_count(cs, n),
    decreases n,
{
    if n > 0 {
        lemma_collected_unfiltered_len(cs, n - 1);
        assert(!matches_ignore(cs[n - 1].id, Seq::empty()));
        assert(date_gate(cs[n - 1].timestamp, None, None) == Some(true));
    }
}

/// An unfiltered query returns exactly one event per distinct relevant
/// commit: its event count equals the number of distinct commits whose
/// tree contains the file and which either have no parents or changed the
/// file against some parent.
pub proof fn lemma_unfiltered_event_count(cs: Seq<CommitRecordView>, order: SortOrder)
    ensures
        query_events(cs, Seq::empty(), None, None, order).len() == relevant_distinct_count(
            cs,
            cs.len() as int,
        ),
{
    lemma_collected_unfiltered_len(cs, cs.len() as int);
    lemma_sort_len(events_of(collected(cs, Seq::empty(), None, None)), order);
}

/// Idempotence: the outcome of a query is a function of the commit stream
/// and the arguments alone, so two identical queries against an unchanged
/// stream yield equal event sequences.
pub proof fn lemma_query_deterministic(
    cs: Seq<CommitRecordView>,
    revs: Seq<Seq<char>>,
    since: Option<Seq<char>>,
    until: Option<Seq<char>>,
    order: SortOrder,
    e1: Seq<LineEntryView>,
    e2: Seq<LineEntryView>,
)
    requires
        e1 == query_events(cs, revs, since, until, order),
        e2 == query_events(cs, revs, since, until, order),
    ensures
        e1 == e2,
{
}

/// Order symmetry: when no two collected events share a timestamp, the
/// ascending result is the exact reverse of the descending one, so the
/// first ascending event carries the same commit identifier as the last
/// descending one.
pub proof fn lemma_query_order_symmetry(
    cs: Seq<CommitRecordView>,
    revs: Seq<Seq<char>>,
    since: Option<Seq<char>>,
    until: Option<Seq<char>>,
)
    requires
        distinct_timestamps(events_of(collected(cs, revs, since, until))),
    ensures
        query_events(cs, revs, since, until, SortOrder::Asc) == query_events(
            cs,
            revs,
            since,
            until,
            SortOrder::Desc,
        ).reverse(),
        query_events(cs, revs, since, until, SortOrder::Asc).len() >= 1 ==> query_events(
            cs,
            revs,
            since,
            until,
            SortOrder::Asc,
        )[0].commit_hash == query_events(cs, revs, since, until, SortOrder::Desc)[query_events(
            cs,
            revs,
            since,
            until,
            SortOrder::Desc,
        ).len() - 1].commit_hash,
{
    let events = events_of(collected(cs, revs, since, until));
    lemma_order_symmetry(events);
    lemma_sort_len(events, SortOrder::Asc);
    lemma_sort_len(events, SortOrder::Desc);
}

proof fn lemma_collected_element(
    cs: Seq<CommitRecordView>,
    revs: Seq<Seq<char>>,
    since: Option<Seq<char>>,
    until: Option<Seq<char>>,
    n: int,
    k: int,
)
    requires
        0 <= n <= cs.len(),
        0 <= k < collected_prefix(cs, revs, since, until, n).len(),
    ensures
        exists|i: int|
            0 <= i < n && is_taken(cs, i, revs, since, until) && collected_prefix(
                cs,
                revs,
                since,
                until,
                n,
            )[k] == cs[i],
    decreases n,
{
    if n > 0 {
        let prev = collected_prefix(cs, revs, since, until, n - 1);
        if is_taken(cs, n - 1, revs, since, until) && k == prev.len() {
            assert(collected_prefix(cs, revs, since, until, n)[k] == cs[n - 1]);
        } else {
            lemma_collected_element(cs, revs, since, until, n - 1, k);
            let i = choose|i: int|
                0 <= i < n - 1 && is_taken(cs, i, revs, since, until) && prev[k] == cs[i];
            assert(collected_prefix(cs, revs, since, until, n)[k] == prev[k]);
        }
    }
}

/// Ignore filter, membership half: no returned event's identifier equals
/// or extends an entry of the ignore list.
pub proof fn lemma_ignored_revs_absent(
    cs: Seq<CommitRecordView>,
    revs: Seq<Seq<char>>,
    since: Option<Seq<char>>,
    until: Option<Seq<char>>,
    order: SortOrder,
)
    ensures
        forall|i: int|
            0 <= i < query_events(cs, revs, since, until, order).len() ==> !matches_ignore(
                query_events(cs, revs, since, until, order)[i].commit_hash,
                revs,
            ),
{
    let coll = collected(cs, revs, since, until);
    let events = events_of(coll);
    let q = query_events(cs, revs, since, until, order);
    assert forall|i: int| 0 <= i < q.len() implies !matches_ignore(q[i].commit_hash, revs) by {
        lemma_sort_membership(events, order, i);
        let j = choose|j: int| 0 <= j < events.len() && events[j] == q[i];
        assert(events[j].commit_hash == coll[j].id);
        lemma_collected_element(cs, revs, since, until, cs.len() as int, j);
        let w = choose|w: int|
            0 <= w < cs.len() && is_taken(cs, w, revs, since, until) && coll[j] == cs[w];
        assert(!matches_ignore(cs[w].id, revs));
    }
}

/// Date filter, membership half: every returned event's timestamp lies
/// inside whichever of the supplied bounds parses.
pub proof fn lemma_date_bounds(
    cs: Seq<CommitRecordView>,
    revs: Seq<Seq<char>>,
    since: Option<Seq<char>>,
    until: Option<Seq<char>>,
    order: SortOrder,
)
    ensures
        forall|i: int|
            0 <= i < query_events(cs, revs, since, until, order).len() ==> within_bounds(
                query_events(cs, revs, since, until, order)[i].timestamp,
                since,
                until,
            ),
{
    let coll = collected(cs, revs, since, until);
    let events = events_of(coll);
    let q = query_events(cs, revs, since, until, order);
    assert forall|i: int| 0 <= i < q.len() implies within_bounds(q[i].timestamp, since, until) by {
        lemma_sort_membership(events, order, i);
        let j = choose|j: int| 0 <= j < events.len() && events[j] == q[i];
        assert(events[j].timestamp == coll[j].timestamp);
        lemma_collected_element(cs, revs, since, until, cs.len() as int, j);
        let w = choose|w: int|
            0 <= w < cs.len() && is_taken(cs, w, revs, since, until) && coll[j] == cs[w];
        assert(date_gate(cs[w].timestamp, since, until) == Some(true));
        assert(within_bounds(cs[w].timestamp, since, until)) by {
            if since is Some {
                assert(until_gate(cs[w].timestamp, until) == Some(true));
            } else {
                assert(until_gate(cs[w].timestamp, until) == Some(true));
            }
        }
    }
}

/// Unknown file: when no date bound in play is unreadable, no commit
/// survives the filters, and the file is absent from the head tree, the
/// extraction fails with `FileNotFound` carrying the queried path — no
/// partial history comes back beside the error.
pub proof fn lemma_unknown_file_fails(
    file_path: &str,
    line_number: u32,
    sort_order: SortOrder,
    ignore_revs: &Vec<String>,
    since: Option<&str>,
    until: Option<&str>,
    commits: &Vec<CommitRecord>,
    r: Result<LineHistory, HistoryError>,
)
    requires
        call_ensures(
            extract_history,
            (file_path, line_number, sort_order, ignore_revs, since, until, commits, false),
            r,
        ),
        !has_date_error(
            commit_views(commits@),
            str_views(ignore_revs@),
            opt_view(since),
            opt_view(until),
        ),
        collected(
            commit_views(commits@),
            str_views(ignore_revs@),
            opt_view(since),
            opt_view(until),
        ).len() == 0,
    ensures
        r matches Err(e) && e matches HistoryError::FileNotFound(p) && p@ == file_path@,
{
}

/// The number of events a query would return, were the ignore list empty,
/// that the given ignore list removes: the distinct relevant in-bounds
/// commits whose identifier equals or extends an ignored revision.
pub open spec fn matched_ignored_count(
    cs: Seq<CommitRecordView>,
    revs: Seq<Seq<char>>,
    since: Option<Seq<char>>,
    until: Option<Seq<char>>,
    n: int,
) -> int
    decreases n,
{
    if n <= 0 {
        0
    } else {
        matched_ignored_count(cs, revs, since, until, n - 1) + if is_taken(
            cs,
            n - 1,
            Seq::empty(),
            since,
            until,
        ) && matches_ignore(cs[n - 1].id, revs) {
            1int
        } else {
            0int
        }
    }
}

proof fn lemma_ignore_count_prefix(
    cs: Seq<CommitRecordView>,
    revs: Seq<Seq<char>>,
    since: Option<Seq<char>>,
    until: Option<Seq<char>>,
    n: int,
)
    requires
        0 <= n <= cs.len(),
    ensures
        collected_prefix(cs, revs, since, until, n).len() + matched_ignored_count(
            cs,
            revs,
            since,
            until,
            n,
        ) == collected_prefix(cs, Seq::empty(), since, until, n).len(),
    decreases n,
{
    if n > 0 {
        lemma_ignore_count_prefix(cs, revs, since, until, n - 1);
        assert(!matches_ignore(cs[n - 1].id, Seq::empty()));
    }
}

/// Ignore filter, counting half: adding an ignore list drops the event
/// count by exactly the number of distinct relevant in-bounds commits the
/// list matches.
pub proof fn lemma_ignore_filter_count(
    cs: Seq<CommitRecordView>,
    revs: Seq<Seq<char>>,
    since: Option<Seq<char>>,
    until: Option<Seq<char>>,
    order: SortOrder,
)
    ensures
        query_events(cs, revs, since, until, order).len() + matched_ignored_count(
            cs,
            revs,
            since,
            until,
            cs.len() as int,
        ) == query_events(cs, Seq::empty(), since, until, order).len(),
{
    lemma_ignore_count_prefix(cs, revs, since, until, cs.len() as int);
    lemma_sort_len(events_of(collected(cs, revs, since, until)), order);
    lemma_sort_len(events_of(collected(cs, Seq::empty(), since, until)), order);
}

} // verus!
