//! The history extraction engine. It consumes a stream of commit facts —
//! already gathered from the repository backend, ordered by the backend's
//! traversal (commit time descending) — and computes the line history:
//! duplicates are dropped, ignored revisions and commits outside the date
//! bounds are excluded, the commits relevant to the file are classified
//! and sorted, and the absence of any event for a file missing from the
//! head tree is reported as an error.

use vstd::prelude::*;

use crate::dates::bad_date_text;
use crate::dates::date_gate;
use crate::dates::opt_view;
use crate::dates::parse_date_spec;
use crate::dates::passes_date;
use crate::domain::ChangeType;
use crate::domain::LineEntry;
use crate::domain::LineEntryView;
use crate::domain::LineHistory;
use crate::domain::SortOrder;
use crate::errors::HistoryError;
use crate::sorting::entry_views;
use crate::sorting::sort_entries;
use crate::sorting::sort_events;
use crate::strutil::is_prefix_of;
use crate::strutil::str_eq;
use crate::strutil::str_starts_with;

verus! {

/// The facts about one commit that the engine reads: its identifier,
/// author, authoring instant (seconds since the Unix epoch, UTC), message,
/// number of parents, whether the queried file exists in its tree, and
/// whether the file differs from at least one parent's tree.
#[derive(Debug, Clone, PartialEq)]
pub struct CommitRecord {
    pub id: String,
    pub author: String,
    pub timestamp: i64,
    pub message: String,
    pub parent_count: usize,
    pub file_in_tree: bool,
    pub file_changed: bool,
}

/// The mathematical value of a `CommitRecord`.
pub ghost struct CommitRecordView {
    pub id: Seq<char>,
    pub author: Seq<char>,
    pub timestamp: i64,
    pub message: Seq<char>,
    pub parent_count: int,
    pub file_in_tree: bool,
    pub file_changed: bool,
}

impl View for CommitRecord {
    type V = CommitRecordView;

    open spec fn view(&self) -> CommitRecordView {
        CommitRecordView {
            id: self.id@,
            author: self.author@,
            timestamp: self.timestamp,
            message: self.message@,
            parent_count: self.parent_count as int,
            file_in_tree: self.file_in_tree,
            file_changed: self.file_changed,
        }
    }
}

/// The views of a vector of commit records.
pub open spec fn commit_views(s: Seq<CommitRecord>) -> Seq<CommitRecordView> {
    s.map_values(|c: CommitRecord| c@)
}

/// The views of a vector of strings.
pub open spec fn str_views(s: Seq<String>) -> Seq<Seq<char>> {
    s.map_values(|x: String| x@)
}

/// The identifier equals, or extends, one of the ignored revisions.
pub open spec fn matches_ignore(id: Seq<char>, revs: Seq<Seq<char>>) -> bool {
    exists|k: int| 0 <= k < revs.len() && is_prefix_of(revs[k], id)
}

/// The commit touches the queried file: the file exists in its tree and
/// the commit either has no parents (a creation) or changed the file
/// relative to some parent.
pub open spec fn is_relevant(c: CommitRecordView) -> bool {
    c.file_in_tree && (c.parent_count == 0 || c.file_changed)
}

/// No earlier commit in the stream carries the same identifier.
pub open spec fn first_occurrence(cs: Seq<CommitRecordView>, i: int) -> bool {
    forall|j: int| 0 <= j < i ==> cs[j].id != cs[i].id
}

/// The commit at `i` reaches the date gate: it is no duplicate and is not
/// ignored.
pub open spec fn survives_prefilter(cs: Seq<CommitRecordView>, i: int, revs: Seq<Seq<char>>) -> bool {
    first_occurrence(cs, i) && !matches_ignore(cs[i].id, revs)
}

/// Processing the commit at `i` trips over an unreadable date bound.
pub open spec fn date_error_at(
    cs: Seq<CommitRecordView>,
    i: int,
    revs: Seq<Seq<char>>,
    since: Option<Seq<char>>,
    until: Option<Seq<char>>,
) -> bool {
    survives_prefilter(cs, i, revs) && date_gate(cs[i].timestamp, since, until) is None
}

/// Some commit of the stream trips over an unreadable date bound.
pub open spec fn has_date_error(
    cs: Seq<CommitRecordView>,
    revs: Seq<Seq<char>>,
    since: Option<Seq<char>>,
    until: Option<Seq<char>>,
) -> bool {
    exists|i: int| 0 <= i < cs.len() && date_error_at(cs, i, revs, since, until)
}

/// The commit at `i` is collected: no duplicate, not ignored, inside the
/// date bounds, and relevant to the file.
pub open spec fn is_taken(
    cs: Seq<CommitRecordView>,
    i: int,
    revs: Seq<Seq<char>>,
    since: Option<Seq<char>>,
    until: Option<Seq<char>>,
) -> bool {
    survives_prefilter(cs, i, revs) && date_gate(cs[i].timestamp, since, until) == Some(true)
        && is_relevant(cs[i])
}

/// The collected commits among the first `n`, in stream order.
pub open spec fn collected_prefix(
    cs: Seq<CommitRecordView>,
    revs: Seq<Seq<char>>,
    since: Option<Seq<char>>,
    until: Option<Seq<char>>,
    n: int,
) -> Seq<CommitRecordView>
    decreases n,
{
    if n <= 0 {
        Seq::empty()
    } else if is_taken(cs, n - 1, revs, since, until) {
        collected_prefix(cs, revs, since, until, n - 1).push(cs[n - 1])
    } else {
        collected_prefix(cs, revs, since, until, n - 1)
    }
}

/// All collected commits of the stream, in stream order.
pub open spec fn collected(
    cs: Seq<CommitRecordView>,
    revs: Seq<Seq<char>>,
    since: Option<Seq<char>>,
    until: Option<Seq<char>>,
) -> Seq<CommitRecordView> {
    collected_prefix(cs, revs, since, until, cs.len() as int)
}

/// The event a collected commit projects to. The first collected commit —
/// the first one the traversal meets, not the chronologically first — is
/// classified `Created`, every later one `Modified`; the line content is
/// left empty.
pub open spec fn event_view(c: CommitRecordView, first: bool) -> LineEntryView {
    LineEntryView {
        commit_hash: c.id,
        author: c.author,
        timestamp: c.timestamp,
        message: c.message,
        content: Seq::empty(),
        change_type: if first {
            ChangeType::Created
        } else {
            ChangeType::Modified
        },
    }
}

/// The events of a sequence of collected commits, in collection order.
pub open spec fn events_of(s: Seq<CommitRecordView>) -> Seq<LineEntryView> {
    Seq::new(s.len(), |i: int| event_view(s[i], i == 0))
}

/// The event sequence a successful query returns: the events of the
/// collected commits, sorted by timestamp under the requested order.
pub open spec fn query_events(
    cs: Seq<CommitRecordView>,
    revs: Seq<Seq<char>>,
    since: Option<Seq<char>>,
    until: Option<Seq<char>>,
    order: SortOrder,
) -> Seq<LineEntryView> {
    sort_events(events_of(collected(cs, revs, since, until)), order)
}

/// The event's timestamp lies inside whichever bounds parse.
pub open spec fn within_bounds(
    ts: i64,
    since: Option<Seq<char>>,
    until: Option<Seq<char>>,
) -> bool {
    &&& match since {
        Some(ss) => match parse_date_spec(ss) {
            Some(t0) => ts >= t0,
            None => true,
        },
        None => true,
    }
    &&& match until {
        Some(us) => match parse_date_spec(us) {
            Some(t1) => ts <= t1,
            None => true,
        },
        None => true,
    }
}

fn seen_before(commits: &Vec<CommitRecord>, idx: usize) -> (r: bool)
    requires
        idx < commits@.len(),
    ensures
        r == !first_occurrence(commit_views(commits@), idx as int),
{
    let ghost cs = commit_views(commits@);
    let mut j: usize = 0;
    while j < idx
        invariant
            j <= idx < commits@.len(),
            cs == commit_views(commits@),
            forall|k: int| 0 <= k < j ==> cs[k].id != cs[idx as int].id,
        decreases idx - j,
    {
        proof {
            assert(cs[j as int] == commits@[j as int]@);
            assert(cs[idx as int] == commits@[idx as int]@);
        }
        if str_eq(commits[j].id.as_str(), commits[idx].id.as_str()) {
            return true;
        }
        j += 1;
    }
    false
}

fn is_ignored(id: &String, revs: &Vec<String>) -> (r: bool)
    ensures
        r == matches_ignore(id@, str_views(revs@)),
{
    let ghost rv = str_views(revs@);
    let mut k: usize = 0;
    while k < revs.len()
        invariant
            k <= revs@.len(),
            rv == str_views(revs@),
            forall|j: int| 0 <= j < k ==> !is_prefix_of(rv[j], id@),
        decreases revs@.len() - k,
    {
        proof {
            assert(rv[k as int] == revs@[k as int]@);
        }
        if str_starts_with(id.as_str(), revs[k].as_str()) {
            return true;
        }
        k += 1;
    }
    false
}

proof fn lemma_events_push(s: Seq<CommitRecordView>, c: CommitRecordView)
    ensures
        events_of(s.push(c)) == events_of(s).push(event_view(c, s.len() == 0)),
{
    assert(events_of(s.push(c)) =~= events_of(s).push(event_view(c, s.len() == 0)));
}

/// Extracts the history of `file_path` from the commit stream.
///
/// `commits` holds the backend's traversal, newest first; `head_has_file`
/// says whether the file exists in the head tree. The engine deduplicates
/// the stream by identifier, drops commits whose identifier extends an
/// entry of `ignore_revs`, drops commits outside the `since`/`until`
/// bounds (inclusive, read lazily: an unreadable bound surfaces as
/// `InvalidDateFormat` only when some commit's timestamp is tested), keeps the
/// commits relevant to the file, classifies the first collected one as
/// `Created`, and returns the events sorted by timestamp. When nothing is
/// collected and the file is absent from the head tree the query fails
/// with `FileNotFound`; when nothing is collected but the file exists the
/// result is an empty history.
pub fn extract_history(
    file_path: &str,
    line_number: u32,
    sort_order: SortOrder,
    ignore_revs: &Vec<String>,
    since: Option<&str>,
    until: Option<&str>,
    commits: &Vec<CommitRecord>,
    head_has_file: bool,
) -> (r: Result<LineHistory, HistoryError>)
    ensures
        ({
            let cs = commit_views(commits@);
            let revs = str_views(ignore_revs@);
            let sv = opt_view(since);
            let uv = opt_view(until);
            match r {
                Ok(h) => !has_date_error(cs, revs, sv, uv) && (collected(cs, revs, sv, uv).len()
                    > 0 || head_has_file) && h@.file_path == file_path@ && h@.line_number
                    == line_number && h@.entries == query_events(cs, revs, sv, uv, sort_order),
                Err(e) => if has_date_error(cs, revs, sv, uv) {
                    &&& e matches HistoryError::InvalidDateFormat(d)
                    &&& d@ == bad_date_text(sv, uv)
                } else {
                    &&& collected(cs, revs, sv, uv).len() == 0
                    &&& !head_has_file
                    &&& e matches HistoryError::FileNotFound(p)
                    &&& p@ == file_path@
                },
            }
        }),
{
    let ghost cs = commit_views(commits@);
    let ghost revs = str_views(ignore_revs@);
    let ghost sv = opt_view(since);
    let ghost uv = opt_view(until);
    let mut picked: Vec<LineEntry> = Vec::new();
    let mut idx: usize = 0;
    proof {
        assert(entry_views(picked@) =~= events_of(collected_prefix(cs, revs, sv, uv, 0)));
    }
    while idx < commits.len()
        invariant
            idx <= commits@.len(),
            cs == commit_views(commits@),
            revs == str_views(ignore_revs@),
            sv == opt_view(since),
            uv == opt_view(until),
            entry_views(picked@) == events_of(collected_prefix(cs, revs, sv, uv, idx as int)),
            forall|i: int| 0 <= i < idx ==> !date_error_at(cs, i, revs, sv, uv),
        decreases commits@.len() - idx,
    {
        let ghost coll = collected_prefix(cs, revs, sv, uv, idx as int);
        let c = &commits[idx];
        let dup = seen_before(commits, idx);
        let mut taken = false;
        if !dup {
            if !is_ignored(&c.id, ignore_revs) {
                match passes_date(c.timestamp, since, until) {
                    Err(e) => {
                        proof {
                            assert(date_error_at(cs, idx as int, revs, sv, uv));
                            assert(has_date_error(cs, revs, sv, uv));
                        }
                        return Err(e);
                    },
                    Ok(pass) => {
                        if pass {
                            if c.file_in_tree && (c.parent_count == 0 || c.file_changed) {
                                let ghost before = picked@;
                                let entry = LineEntry {
                                    commit_hash: c.id.clone(),
                                    author: c.author.clone(),
                                    timestamp: c.timestamp,
                                    message: c.message.clone(),
                                    content: String::new(),
                                    change_type: if picked.len() == 0 {
                                        ChangeType::Created
                                    } else {
                                        ChangeType::Modified
                                    },
                                };
                                proof {
                                    assert(coll.len() == events_of(coll).len());
                                    assert(entry@ == event_view(cs[idx as int], coll.len() == 0));
                                }
                                picked.push(entry);
                                taken = true;
                                proof {
                                    assert(is_taken(cs, idx as int, revs, sv, uv));
                                    lemma_events_push(coll, cs[idx as int]);
                                    assert(entry_views(picked@) =~= entry_views(before).push(
                                        entry@,
                                    ));
                                    assert(collected_prefix(cs, revs, sv, uv, idx + 1) == coll.push(
                                        cs[idx as int],
                                    ));
                                }
                            }
                        }
                    },
                }
            }
        }
        proof {
            if !taken {
                assert(!is_taken(cs, idx as int, revs, sv, uv));
                assert(collected_prefix(cs, revs, sv, uv, idx + 1) == coll);
            }
        }
        idx += 1;
    }
    proof {
        assert(!has_date_error(cs, revs, sv, uv));
        assert(collected_prefix(cs, revs, sv, uv, cs.len() as int) == collected(
            cs,
            revs,
            sv,
            uv,
        ));
        assert(entry_views(picked@).len() == events_of(collected(cs, revs, sv, uv)).len());
    }
    if picked.len() == 0 && !head_has_file {
        return Err(HistoryError::FileNotFound(file_path.to_owned()));
    }
    let ghost n_collected = collected(cs, revs, sv, uv).len();
    let sorted = sort_entries(picked, sort_order);
    let history = LineHistory { file_path: file_path.to_owned(), line_number, entries: sorted };
    proof {
        assert(history@.entries =~= entry_views(sorted@));
        assert(history@.entries == query_events(cs, revs, sv, uv, sort_order));
    }
    Ok(history)
}

} // verus!
