use git_ombl::extract_history;
use git_ombl::ChangeType;
use git_ombl::CommitRecord;
use git_ombl::HistoryError;
use git_ombl::SortOrder;

fn commit(
    id: &str,
    timestamp: i64,
    message: &str,
    parent_count: usize,
    file_in_tree: bool,
    file_changed: bool,
) -> CommitRecord {
    CommitRecord {
        id: id.to_string(),
        author: "Test User".to_string(),
        timestamp,
        message: message.to_string(),
        parent_count,
        file_in_tree,
        file_changed,
    }
}

/// Three commits touching the file, newest first, as a backend traversal
/// would hand them over.
fn three_commits() -> Vec<CommitRecord> {
    vec![
        commit("c3cccccccccc", 3000, "third", 1, true, true),
        commit("c2bbbbbbbbbb", 2000, "second", 1, true, true),
        commit("c1aaaaaaaaaa", 1000, "first", 0, true, false),
    ]
}

#[test]
fn test_scenario_three_commits_ascending() {
    let commits = three_commits();
    let history = extract_history("f.txt", 1, SortOrder::Asc, &vec![], None, None, &commits, true)
        .unwrap();

    assert_eq!(history.file_path, "f.txt");
    assert_eq!(history.line_number, 1);
    let ts: Vec<i64> = history.entries.iter().map(|e| e.timestamp).collect();
    assert_eq!(ts, vec![1000, 2000, 3000]);
    let messages: Vec<&str> = history.entries.iter().map(|e| e.message.as_str()).collect();
    assert_eq!(messages, vec!["first", "second", "third"]);
}

#[test]
fn test_scenario_three_commits_descending() {
    let commits = three_commits();
    let history = extract_history("f.txt", 1, SortOrder::Desc, &vec![], None, None, &commits, true)
        .unwrap();

    let ts: Vec<i64> = history.entries.iter().map(|e| e.timestamp).collect();
    assert_eq!(ts, vec![3000, 2000, 1000]);
}

#[test]
fn test_scenario_order_symmetry() {
    let commits = three_commits();
    let asc = extract_history("f.txt", 1, SortOrder::Asc, &vec![], None, None, &commits, true)
        .unwrap();
    let desc = extract_history("f.txt", 1, SortOrder::Desc, &vec![], None, None, &commits, true)
        .unwrap();

    let mut reversed = desc.entries.clone();
    reversed.reverse();
    assert_eq!(asc.entries, reversed);
    assert_eq!(
        asc.entries[0].commit_hash,
        desc.entries[desc.entries.len() - 1].commit_hash
    );
}

#[test]
fn test_scenario_ignore_prefix() {
    let commits = three_commits();
    let ignore = vec!["c2bbbbbb".to_string()]; // 8-character prefix
    let history = extract_history("f.txt", 1, SortOrder::Asc, &ignore, None, None, &commits, true)
        .unwrap();

    let ts: Vec<i64> = history.entries.iter().map(|e| e.timestamp).collect();
    assert_eq!(ts, vec![1000, 3000]);
    for e in &history.entries {
        assert!(!e.commit_hash.starts_with("c2bbbbbb"));
    }
}

#[test]
fn test_scenario_ignore_drops_count_exactly() {
    let commits = three_commits();
    let all = extract_history("f.txt", 1, SortOrder::Asc, &vec![], None, None, &commits, true)
        .unwrap();
    let ignore = vec!["c2bbbbbb".to_string()];
    let filtered =
        extract_history("f.txt", 1, SortOrder::Asc, &ignore, None, None, &commits, true).unwrap();

    assert_eq!(filtered.entries.len(), all.entries.len() - 1);
}

#[test]
fn test_scenario_ignore_unknown_revision_is_noop() {
    let commits = three_commits();
    let ignore = vec!["fakehash123".to_string()];
    let all = extract_history("f.txt", 1, SortOrder::Asc, &vec![], None, None, &commits, true)
        .unwrap();
    let filtered =
        extract_history("f.txt", 1, SortOrder::Asc, &ignore, None, None, &commits, true).unwrap();

    assert_eq!(all.entries.len(), filtered.entries.len());
}

#[test]
fn test_scenario_since_bound_inclusive() {
    let commits = three_commits();
    // 2000 seconds after the epoch.
    let since = "1970-01-01T00:33:20Z";
    let history = extract_history(
        "f.txt",
        1,
        SortOrder::Asc,
        &vec![],
        Some(since),
        None,
        &commits,
        true,
    )
    .unwrap();

    let ts: Vec<i64> = history.entries.iter().map(|e| e.timestamp).collect();
    assert_eq!(ts, vec![2000, 3000]);
}

#[test]
fn test_scenario_until_bound_inclusive() {
    let commits = three_commits();
    let until = "1970-01-01T00:33:20Z"; // 2000 seconds
    let history = extract_history(
        "f.txt",
        1,
        SortOrder::Asc,
        &vec![],
        None,
        Some(until),
        &commits,
        true,
    )
    .unwrap();

    let ts: Vec<i64> = history.entries.iter().map(|e| e.timestamp).collect();
    assert_eq!(ts, vec![1000, 2000]);
}

#[test]
fn test_scenario_future_since_yields_empty_not_error() {
    let commits = three_commits();
    let history = extract_history(
        "f.txt",
        1,
        SortOrder::Asc,
        &vec![],
        Some("2100-01-01T00:00:00Z"),
        None,
        &commits,
        true,
    )
    .unwrap();

    assert_eq!(history.entries.len(), 0);
    assert_eq!(history.file_path, "f.txt");
}

#[test]
fn test_unknown_file_fails_with_file_not_found() {
    let commits = vec![commit("c9dddddddddd", 500, "other file", 0, false, false)];
    let result =
        extract_history("missing.txt", 1, SortOrder::Asc, &vec![], None, None, &commits, false);

    match result {
        Err(HistoryError::FileNotFound(path)) => assert_eq!(path, "missing.txt"),
        other => panic!("expected FileNotFound, got {:?}", other),
    }
}

#[test]
fn test_no_events_but_file_in_head_is_ok() {
    let commits: Vec<CommitRecord> = Vec::new();
    let history = extract_history("f.txt", 9, SortOrder::Asc, &vec![], None, None, &commits, true)
        .unwrap();

    assert_eq!(history.entries.len(), 0);
    assert_eq!(history.line_number, 9);
}

#[test]
fn test_invalid_since_date_fails() {
    let commits = three_commits();
    let result = extract_history(
        "f.txt",
        1,
        SortOrder::Asc,
        &vec![],
        Some("not-a-date"),
        None,
        &commits,
        true,
    );

    match result {
        Err(HistoryError::InvalidDateFormat(text)) => assert_eq!(text, "not-a-date"),
        other => panic!("expected InvalidDateFormat, got {:?}", other),
    }
}

#[test]
fn test_invalid_date_with_empty_stream_is_not_detected() {
    // The bounds are read lazily, per surviving commit: with nothing to
    // check they are never parsed.
    let commits: Vec<CommitRecord> = Vec::new();
    let history = extract_history(
        "f.txt",
        1,
        SortOrder::Asc,
        &vec![],
        Some("not-a-date"),
        None,
        &commits,
        true,
    )
    .unwrap();

    assert_eq!(history.entries.len(), 0);
}

#[test]
fn test_invalid_until_date_fails_with_its_text() {
    let commits = three_commits();
    let result = extract_history(
        "f.txt",
        1,
        SortOrder::Asc,
        &vec![],
        None,
        Some("31/12/2023"),
        &commits,
        true,
    );

    match result {
        Err(HistoryError::InvalidDateFormat(text)) => assert_eq!(text, "31/12/2023"),
        other => panic!("expected InvalidDateFormat, got {:?}", other),
    }
}

#[test]
fn test_ignoring_every_commit_suppresses_the_date_error() {
    // The bounds are read per surviving commit; when the ignore list drops
    // every commit first, an unreadable bound is never noticed.
    let commits = three_commits();
    let ignore = vec!["c1".to_string(), "c2".to_string(), "c3".to_string()];
    let history = extract_history(
        "f.txt",
        1,
        SortOrder::Asc,
        &ignore,
        Some("not-a-date"),
        None,
        &commits,
        true,
    )
    .unwrap();

    assert_eq!(history.entries.len(), 0);
}

#[test]
fn test_duplicate_commits_counted_once() {
    let mut commits = three_commits();
    commits.push(commit("c2bbbbbbbbbb", 2000, "second again", 1, true, true));
    let history = extract_history("f.txt", 1, SortOrder::Asc, &vec![], None, None, &commits, true)
        .unwrap();

    assert_eq!(history.entries.len(), 3);
}

#[test]
fn test_irrelevant_commits_not_counted() {
    let commits = vec![
        commit("c3cccccccccc", 3000, "touches file", 1, true, true),
        commit("c2bbbbbbbbbb", 2000, "file in tree, unchanged", 1, true, false),
        commit("c0eeeeeeeeee", 1500, "file absent", 1, false, false),
        commit("c1aaaaaaaaaa", 1000, "creation", 0, true, false),
    ];
    let history = extract_history("f.txt", 1, SortOrder::Asc, &vec![], None, None, &commits, true)
        .unwrap();

    assert_eq!(history.entries.len(), 2);
    let ts: Vec<i64> = history.entries.iter().map(|e| e.timestamp).collect();
    assert_eq!(ts, vec![1000, 3000]);
}

#[test]
fn test_identical_queries_yield_equal_results() {
    let commits = three_commits();
    let first = extract_history("f.txt", 1, SortOrder::Desc, &vec![], None, None, &commits, true)
        .unwrap();
    let second = extract_history("f.txt", 1, SortOrder::Desc, &vec![], None, None, &commits, true)
        .unwrap();

    assert_eq!(first, second);
}

#[test]
fn test_first_collected_commit_is_created() {
    // The Created tag lands on the first commit the traversal meets — the
    // newest relevant one, since the stream runs newest first — not on the
    // chronologically earliest. Ascending order therefore shows it last,
    // descending order first; the tag rides on the commit, not on the
    // output position.
    let commits = three_commits();
    let asc = extract_history("f.txt", 1, SortOrder::Asc, &vec![], None, None, &commits, true)
        .unwrap();
    let desc = extract_history("f.txt", 1, SortOrder::Desc, &vec![], None, None, &commits, true)
        .unwrap();

    assert_eq!(asc.entries[2].change_type, ChangeType::Created);
    assert_eq!(asc.entries[2].commit_hash, "c3cccccccccc");
    assert_eq!(asc.entries[0].change_type, ChangeType::Modified);
    assert_eq!(asc.entries[1].change_type, ChangeType::Modified);
    assert_eq!(desc.entries[0].change_type, ChangeType::Created);
    assert_eq!(desc.entries[0].commit_hash, "c3cccccccccc");
    assert_eq!(desc.entries[1].change_type, ChangeType::Modified);
    assert_eq!(desc.entries[2].change_type, ChangeType::Modified);
    for e in &asc.entries {
        assert_eq!(e.content, "");
        assert_eq!(e.author, "Test User");
    }
}

#[test]
fn test_stable_order_for_equal_timestamps() {
    // Two distinct relevant commits with the same timestamp keep their
    // traversal order under either sort.
    let commits = vec![
        commit("aaaa11111111", 2000, "met first", 1, true, true),
        commit("bbbb22222222", 2000, "met second", 1, true, true),
        commit("cccc33333333", 1000, "creation", 0, true, false),
    ];
    let asc = extract_history("f.txt", 1, SortOrder::Asc, &vec![], None, None, &commits, true)
        .unwrap();
    let desc = extract_history("f.txt", 1, SortOrder::Desc, &vec![], None, None, &commits, true)
        .unwrap();

    assert_eq!(asc.entries[1].message, "met first");
    assert_eq!(asc.entries[2].message, "met second");
    assert_eq!(desc.entries[0].message, "met first");
    assert_eq!(desc.entries[1].message, "met second");
}
