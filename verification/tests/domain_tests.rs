use git_ombl::ChangeType;
use git_ombl::LineEntry;
use git_ombl::LineHistory;

#[test]
fn test_line_history_creation() {
    let history = LineHistory::new("test.rs".to_string(), 42);

    assert_eq!(history.file_path, "test.rs");
    assert_eq!(history.line_number, 42);
    assert_eq!(history.entry_count(), 0);
}

#[test]
fn test_add_entry() {
    let mut history = LineHistory::new("test.rs".to_string(), 42);
    let entry = LineEntry {
        commit_hash: "abc123".to_string(),
        author: "John Doe".to_string(),
        timestamp: 1234567890,
        message: "Initial commit".to_string(),
        content: "println!(\"Hello, world!\");".to_string(),
        change_type: ChangeType::Created,
    };

    history.add_entry(entry.clone());

    assert_eq!(history.entry_count(), 1);
    assert_eq!(history.entries[0], entry);
}

#[test]
fn test_change_type_labels() {
    assert_eq!(ChangeType::Created.label(), "Created");
    assert_eq!(ChangeType::Modified.label(), "Modified");
    assert_eq!(ChangeType::Deleted.label(), "Deleted");
}
